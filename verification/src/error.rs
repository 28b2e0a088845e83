//! The error taxonomy of the persistence core.

use vstd::prelude::*;

verus! {

/// Errors surfaced by the store and its surrounding helpers.
///
/// `Database` stands for a fault of the storage layer (here: a key
/// collision that a relational engine would report as a constraint
/// violation); `EntryNotFound` for an operation that needs an existing
/// entry; `InvalidEntryDate` for a malformed date or month string caught
/// at the edge; the remaining variants mirror the faults of the
/// surrounding application layers.
#[derive(Debug)]
pub enum AppError {
    Database(String),
    EntryNotFound(String),
    InvalidEntryDate(String),
    Serialization(String),
    Io(String),
    AI(String),
    TTS(String),
    Keychain(String),
    InvalidSettings(String),
}

/// Mathematical image of an [`AppError`].
pub ghost enum ErrorView {
    Database(Seq<char>),
    EntryNotFound(Seq<char>),
    InvalidEntryDate(Seq<char>),
    Serialization(Seq<char>),
    Io(Seq<char>),
    AI(Seq<char>),
    TTS(Seq<char>),
    Keychain(Seq<char>),
    InvalidSettings(Seq<char>),
}

impl View for AppError {
    type V = ErrorView;

    open spec fn view(&self) -> ErrorView {
        match self {
            AppError::Database(m) => ErrorView::Database(m@),
            AppError::EntryNotFound(m) => ErrorView::EntryNotFound(m@),
            AppError::InvalidEntryDate(m) => ErrorView::InvalidEntryDate(m@),
            AppError::Serialization(m) => ErrorView::Serialization(m@),
            AppError::Io(m) => ErrorView::Io(m@),
            AppError::AI(m) => ErrorView::AI(m@),
            AppError::TTS(m) => ErrorView::TTS(m@),
            AppError::Keychain(m) => ErrorView::Keychain(m@),
            AppError::InvalidSettings(m) => ErrorView::InvalidSettings(m@),
        }
    }
}

} // verus!
