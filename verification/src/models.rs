//! The plain data types the store and the surrounding application exchange.

use vstd::prelude::*;

verus! {

/// Mathematical image of a diary entry.
pub ghost struct EntryView {
    pub id: Seq<char>,
    pub entry_date: Seq<char>,
    pub content_json: Seq<char>,
    pub mood: Option<Seq<char>>,
    pub mood_emoji: Option<Seq<char>>,
    pub created_at: int,
    pub updated_at: int,
}

/// One diary entry, keyed by its unique calendar date.
#[derive(Debug)]
pub struct DiaryEntry {
    pub id: String,
    pub entry_date: String,
    pub content_json: String,
    pub mood: Option<String>,
    pub mood_emoji: Option<String>,
    pub created_at: i64,
    pub updated_at: i64,
}

impl View for DiaryEntry {
    type V = EntryView;

    open spec fn view(&self) -> EntryView {
        EntryView {
            id: self.id@,
            entry_date: self.entry_date@,
            content_json: self.content_json@,
            mood: self.mood.deep_view(),
            mood_emoji: self.mood_emoji.deep_view(),
            created_at: self.created_at as int,
            updated_at: self.updated_at as int,
        }
    }
}

impl DeepView for DiaryEntry {
    type V = EntryView;

    open spec fn deep_view(&self) -> EntryView {
        self.view()
    }
}

impl Clone for DiaryEntry {
    fn clone(&self) -> (r: Self)
        ensures
            r@ == self@,
    {
        DiaryEntry {
            id: self.id.clone(),
            entry_date: self.entry_date.clone(),
            content_json: self.content_json.clone(),
            mood: clone_opt_string(&self.mood),
            mood_emoji: clone_opt_string(&self.mood_emoji),
            created_at: self.created_at,
            updated_at: self.updated_at,
        }
    }
}

pub fn clone_opt_string(s: &Option<String>) -> (r: Option<String>)
    ensures
        r.deep_view() == s.deep_view(),
{
    match s {
        Some(v) => Some(v.clone()),
        None => None,
    }
}

/// Mathematical image of an AI operation audit record.
pub ghost struct OpView {
    pub id: Seq<char>,
    pub entry_id: Seq<char>,
    pub op_type: Seq<char>,
    pub original_text: Seq<char>,
    pub result_text: Seq<char>,
    pub provider: Seq<char>,
    pub model: Seq<char>,
    pub created_at: int,
}

/// Audit record of one externally performed text transformation.
#[derive(Debug)]
pub struct AIOperation {
    pub id: String,
    pub entry_id: String,
    pub op_type: String,
    pub original_text: String,
    pub result_text: String,
    pub provider: String,
    pub model: String,
    pub created_at: i64,
}

impl View for AIOperation {
    type V = OpView;

    open spec fn view(&self) -> OpView {
        OpView {
            id: self.id@,
            entry_id: self.entry_id@,
            op_type: self.op_type@,
            original_text: self.original_text@,
            result_text: self.result_text@,
            provider: self.provider@,
            model: self.model@,
            created_at: self.created_at as int,
        }
    }
}

impl DeepView for AIOperation {
    type V = OpView;

    open spec fn deep_view(&self) -> OpView {
        self.view()
    }
}

impl Clone for AIOperation {
    fn clone(&self) -> (r: Self)
        ensures
            r@ == self@,
    {
        AIOperation {
            id: self.id.clone(),
            entry_id: self.entry_id.clone(),
            op_type: self.op_type.clone(),
            original_text: self.original_text.clone(),
            result_text: self.result_text.clone(),
            provider: self.provider.clone(),
            model: self.model.clone(),
            created_at: self.created_at,
        }
    }
}

/// Payload for creating an entry.
#[derive(Debug)]
pub struct CreateEntry {
    pub entry_date: String,
    pub content_json: String,
}

/// Payload for updating an entry's content.
#[derive(Debug)]
pub struct UpdateEntry {
    pub content_json: String,
}

/// Payload for recording an AI operation.
#[derive(Debug)]
pub struct CreateAIOperation {
    pub entry_id: String,
    pub op_type: String,
    pub original_text: String,
    pub result_text: String,
    pub provider: String,
    pub model: String,
}

/// The kinds of AI text transformation the application records.
#[derive(Debug, Clone, Copy, PartialEq, Eq, Structural)]
pub enum AIOpType {
    Polish,
    Expand,
    FixGrammar,
}

impl AIOpType {
    pub fn as_str(&self) -> (r: &'static str)
        ensures
            *self is Polish ==> r@ == "polish"@,
            *self is Expand ==> r@ == "expand"@,
            *self is FixGrammar ==> r@ == "fix_grammar"@,
    {
        match self {
            AIOpType::Polish => "polish",
            AIOpType::Expand => "expand",
            AIOpType::FixGrammar => "fix_grammar",
        }
    }
}

/// Derived writing statistics: total entry count and streak lengths in days.
#[derive(Debug, Clone, Copy, PartialEq, Eq, Structural)]
pub struct WritingStats {
    pub total_entries: i64,
    pub current_streak: i64,
    pub longest_streak: i64,
}

/// Mathematical image of an export bundle.
pub ghost struct BundleView {
    pub version: Seq<char>,
    pub exported_at: int,
    pub entries: Seq<EntryView>,
    pub ai_operations: Seq<OpView>,
}

/// The complete portable export/import payload.
#[derive(Debug)]
pub struct ExportData {
    pub version: String,
    pub exported_at: i64,
    pub entries: Vec<DiaryEntry>,
    pub ai_operations: Vec<AIOperation>,
}

impl View for ExportData {
    type V = BundleView;

    open spec fn view(&self) -> BundleView {
        BundleView {
            version: self.version@,
            exported_at: self.exported_at as int,
            entries: self.entries.deep_view(),
            ai_operations: self.ai_operations.deep_view(),
        }
    }
}

/// How an import reconciles bundle records with existing rows.
#[derive(Debug, Clone, Copy, PartialEq, Eq, Structural)]
pub struct ImportOptions {
    /// Overwrite an existing entry that shares a bundle entry's date.
    pub overwrite: bool,
    /// Bring the bundle's AI operation records in as well.
    pub include_ai_operations: bool,
}

/// One key/value configuration row with its update time.
#[derive(Debug)]
pub struct AppSetting {
    pub key: String,
    pub value: String,
    pub updated_at: i64,
}

/// Mathematical image of a setting row.
pub ghost struct SettingView {
    pub key: Seq<char>,
    pub value: Seq<char>,
    pub updated_at: int,
}

impl View for AppSetting {
    type V = SettingView;

    open spec fn view(&self) -> SettingView {
        SettingView { key: self.key@, value: self.value@, updated_at: self.updated_at as int }
    }
}

impl DeepView for AppSetting {
    type V = SettingView;

    open spec fn deep_view(&self) -> SettingView {
        self.view()
    }
}

impl Clone for AppSetting {
    fn clone(&self) -> (r: Self)
        ensures
            r@ == self@,
    {
        AppSetting {
            key: self.key.clone(),
            value: self.value.clone(),
            updated_at: self.updated_at,
        }
    }
}

} // verus!
