//! The embedded store: entries, their shadow index, audit records, settings
//! and the versioned migration engine, all in one structure whose operations
//! are proved against the transitions of [`crate::model`].

use crate::dates::{is_valid_month, parse_date, Date};
use crate::error::AppError;
use crate::external::{new_uuid, now_millis, today};
use crate::model::{
    bool_result_view, entries_result_view, entry_result_view, has_entry_id,
    lemma_date_index_props, lemma_delete_entry_wf, lemma_insert_entry_wf, lemma_insert_pos_props,
    lemma_replace_entry_wf, ops_without_entry, opt_entry_result_view, spec_content_updated,
    spec_date_index, spec_delete_entry, spec_empty_store, spec_get_entry, spec_insert_entry,
    spec_insert_pos, spec_list_entries, spec_list_entries_by_mood, spec_migrate, spec_migrated,
    spec_month_hits_desc, spec_mood_hits_desc, spec_mood_updated, spec_new_entry, spec_project,
    spec_replace_entry, spec_upsert_entry, spec_upsert_entry_mood, view_wf, IndexView,
    MigrationView, StoreView,
};
use crate::model::{
    lemma_delete_ops_for_wf, lemma_insert_op_wf, lemma_op_id_index_props,
    lemma_op_insert_pos_props, lemma_save_setting_wf, lemma_setting_index_props, op_result_view,
    ops_result_view, opt_string_result_view, spec_create_ai_operation, spec_delete_ops_for,
    spec_get_setting, spec_insert_op, spec_list_ai_operations, spec_op_id_index,
    spec_op_insert_pos, spec_ops_for_desc, spec_save_setting, spec_setting_index,
};
use crate::model::{
    index_row_matches, spec_dates_of, spec_entry_overwritten, spec_i64_sat, spec_import,
    spec_import_entries, spec_import_entry_step, spec_import_op_step, spec_import_ops,
    spec_search_entries, spec_search_hits_desc,
};
use crate::models::{
    clone_opt_string, AIOperation, AppSetting, DiaryEntry, EntryView, ExportData, ImportOptions,
    OpView, WritingStats,
};
use crate::stats::{
    calculate_current_streak, calculate_longest_streak, spec_current_streak, spec_longest_streak,
};
use crate::text::{contains_str, starts_with_str, str_eq, str_lt, trim_ascii};
use vstd::prelude::*;

verus! {

/// One shadow-index row: the searchable projection of an entry.
#[derive(Debug)]
pub struct IndexEntry {
    pub entry_id: String,
    pub content: String,
    pub mood_text: String,
}

impl View for IndexEntry {
    type V = IndexView;

    open spec fn view(&self) -> IndexView {
        IndexView { entry_id: self.entry_id@, content: self.content@, mood_text: self.mood_text@ }
    }
}

impl DeepView for IndexEntry {
    type V = IndexView;

    open spec fn deep_view(&self) -> IndexView {
        self.view()
    }
}

/// One applied migration step: its version and when it ran.
#[derive(Debug, Clone, Copy)]
pub struct MigrationRecord {
    pub version: u32,
    pub applied_at: i64,
}

impl View for MigrationRecord {
    type V = MigrationView;

    open spec fn view(&self) -> MigrationView {
        MigrationView { version: self.version as int, applied_at: self.applied_at as int }
    }
}

impl DeepView for MigrationRecord {
    type V = MigrationView;

    open spec fn deep_view(&self) -> MigrationView {
        self.view()
    }
}

/// The store. All mutating operations keep the invariant [`view_wf`]; in
/// particular the shadow index is updated in the same step as the entries,
/// never as a follow-up.
#[derive(Debug)]
pub struct Store {
    version: u32,
    log: Vec<MigrationRecord>,
    entries: Vec<DiaryEntry>,
    index: Vec<IndexEntry>,
    ai_operations: Vec<AIOperation>,
    settings: Vec<AppSetting>,
}

impl View for Store {
    type V = StoreView;

    closed spec fn view(&self) -> StoreView {
        StoreView {
            version: self.version as int,
            log: self.log.deep_view(),
            entries: self.entries.deep_view(),
            index: self.index.deep_view(),
            ai_operations: self.ai_operations.deep_view(),
            settings: self.settings.deep_view(),
        }
    }
}

/// The searchable projection of one entry.
fn project_entry(e: &DiaryEntry) -> (r: IndexEntry)
    ensures
        r@ == spec_project(e@),
{
    IndexEntry {
        entry_id: e.id.clone(),
        content: e.content_json.clone(),
        mood_text: match &e.mood {
            Some(m) => m.clone(),
            None => String::new(),
        },
    }
}

impl Store {
    /// The store invariant; every operation requires and preserves it.
    pub open spec fn wf(&self) -> bool {
        view_wf(self@)
    }

    /// All migration steps have run; every data operation requires it.
    pub open spec fn migrated(&self) -> bool {
        spec_migrated(self@)
    }

    /// A fresh store over an empty database, not yet migrated.
    pub fn new() -> (s: Store)
        ensures
            s.wf(),
            s@ == spec_empty_store(),
    {
        let s = Store {
            version: 0,
            log: Vec::new(),
            entries: Vec::new(),
            index: Vec::new(),
            ai_operations: Vec::new(),
            settings: Vec::new(),
        };
        proof {
            assert(s@.log =~= spec_empty_store().log);
            assert(s@.entries =~= spec_empty_store().entries);
            assert(s@.index =~= spec_empty_store().index);
            assert(s@.ai_operations =~= spec_empty_store().ai_operations);
            assert(s@.settings =~= spec_empty_store().settings);
            assert(s@ =~= spec_empty_store());
            assert(s@.entries.map_values(|e: EntryView| spec_project(e)) =~= s@.index);
        }
        s
    }

    /// Run every migration step past the current version, in ascending
    /// order, recording each with the given timestamp. Running it against an
    /// already-current store changes nothing and is no error.
    pub fn migrate_at(&mut self, now: i64) -> (r: Result<(), AppError>)
        requires
            old(self).wf(),
        ensures
            final(self).wf(),
            final(self).migrated(),
            final(self)@ == spec_migrate(old(self)@, now as int),
            r is Ok,
    {
        let ghost pre = self@;
        if self.version < 2 {
            // the audit-table step drops a stale table before recreating it
            self.ai_operations = Vec::new();
        }
        if self.version < 5 {
            // the search step creates the shadow index and populates it from
            // the existing entries
            let mut ix: Vec<IndexEntry> = Vec::new();
            let mut i: usize = 0;
            while i < self.entries.len()
                invariant
                    i <= self.entries.len(),
                    self.entries.deep_view() == pre.entries,
                    ix.deep_view() =~= pre.entries.take(i as int).map_values(
                        |e: EntryView| spec_project(e),
                    ),
                decreases self.entries.len() - i,
            {
                let row = project_entry(&self.entries[i]);
                let ghost dv0 = ix.deep_view();
                ix.push(row);
                proof {
                    assert(ix.deep_view() =~= dv0.push(row@));
                    assert(pre.entries.take(i + 1) =~= pre.entries.take(i as int).push(
                        pre.entries[i as int],
                    ));
                    assert(ix.deep_view() =~= pre.entries.take(i + 1).map_values(
                        |e: EntryView| spec_project(e),
                    ));
                }
                i = i + 1;
            }
            proof {
                assert(pre.entries.take(pre.entries.len() as int) =~= pre.entries);
            }
            self.index = ix;
        }
        let ghost mid = self@;
        while self.version < 5
            invariant
                pre.version <= self.version as int <= 5,
                self@.entries == mid.entries,
                self@.index == mid.index,
                self@.ai_operations == mid.ai_operations,
                self@.settings == mid.settings,
                self@.log =~= pre.log + Seq::new(
                    (self.version as int - pre.version) as nat,
                    |i: int| MigrationView { version: pre.version + 1 + i, applied_at: now as int },
                ),
            decreases 5 - self.version,
        {
            let rec = MigrationRecord { version: self.version + 1, applied_at: now };
            let ghost lv0 = self.log.deep_view();
            self.log.push(rec);
            self.version = self.version + 1;
            proof {
                assert(self@.log =~= lv0.push(rec@));
                assert(self@.log =~= pre.log + Seq::new(
                    (self.version as int - pre.version) as nat,
                    |i: int| MigrationView { version: pre.version + 1 + i, applied_at: now as int },
                ));
            }
        }
        proof {
            let post = spec_migrate(pre, now as int);
            assert(self@.log =~= post.log);
            if pre.version < 5 {
                assert(self@.index =~= post.index);
            }
            assert(self@ =~= post);
            // the invariant survives: entries untouched, index rebuilt or
            // kept, audit records kept or dropped whole, settings untouched
            assert(view_wf(self@));
        }
        Ok(())
    }

    /// [`Store::migrate_at`] stamped with the current clock.
    pub fn migrate(&mut self) -> (r: Result<(), AppError>)
        requires
            old(self).wf(),
        ensures
            final(self).wf(),
            final(self).migrated(),
            r is Ok,
            exists|t: int| final(self)@ == spec_migrate(old(self)@, t),
    {
        let now = now_millis();
        let r = self.migrate_at(now);
        proof {
            assert(final(self)@ == spec_migrate(old(self)@, now as int));
        }
        r
    }

    /// A fresh store with every migration step applied, stamped `now`.
    pub fn open_at(now: i64) -> (s: Store)
        ensures
            s.wf(),
            s.migrated(),
            s@ == spec_migrate(spec_empty_store(), now as int),
    {
        let mut s = Store::new();
        let _ = s.migrate_at(now);
        s
    }

    /// A fresh store with every migration step applied at the current clock.
    pub fn open() -> (s: Store)
        ensures
            s.wf(),
            s.migrated(),
            exists|t: int| s@ == spec_migrate(spec_empty_store(), t),
    {
        let mut s = Store::new();
        let _ = s.migrate();
        s
    }

    /// Position of the entry with the given date, if any.
    fn find_date_index(&self, date: &str) -> (r: Option<usize>)
        requires
            self.wf(),
        ensures
            match r {
                Some(i) => 0 <= i < self@.entries.len() && i as int == spec_date_index(
                    self@.entries,
                    date@,
                ),
                None => spec_date_index(self@.entries, date@) == -1,
            },
    {
        let ghost es = self@.entries;
        let mut i: usize = 0;
        while i < self.entries.len()
            invariant
                i <= self.entries.len(),
                es == self@.entries,
                self.entries.deep_view() == es,
                forall|j: int| 0 <= j < i ==> (#[trigger] es[j].entry_date) != date@,
            decreases self.entries.len() - i,
        {
            if str_eq(self.entries[i].entry_date.as_str(), date) {
                proof {
                    lemma_date_index_props(es, date@);
                    let k = spec_date_index(es, date@);
                    assert(es[i as int].entry_date == date@);
                    assert(k != -1);
                    assert(k == i as int);
                }
                return Some(i);
            }
            i = i + 1;
        }
        proof {
            lemma_date_index_props(es, date@);
            let k = spec_date_index(es, date@);
            if k >= 0 {
                assert(es[k].entry_date == date@);
                assert(false);
            }
        }
        None
    }

    /// Whether any entry carries the given id.
    fn contains_entry_id(&self, id: &str) -> (r: bool)
        requires
            self.wf(),
        ensures
            r == has_entry_id(self@.entries, id@),
    {
        let ghost es = self@.entries;
        let mut i: usize = 0;
        while i < self.entries.len()
            invariant
                i <= self.entries.len(),
                es == self@.entries,
                self.entries.deep_view() == es,
                forall|j: int| 0 <= j < i ==> (#[trigger] es[j].id) != id@,
            decreases self.entries.len() - i,
        {
            if str_eq(self.entries[i].id.as_str(), id) {
                proof {
                    assert(es[i as int].id == id@);
                }
                return true;
            }
            i = i + 1;
        }
        false
    }

    /// The sorted position for a new entry with the given date.
    fn entry_insert_pos(&self, date: &str) -> (p: usize)
        requires
            self.wf(),
        ensures
            p as int == spec_insert_pos(self@.entries, date@),
            p <= self@.entries.len(),
    {
        let ghost es = self@.entries;
        proof {
            lemma_insert_pos_props(es, date@);
        }
        let mut p: usize = 0;
        while p < self.entries.len() && str_lt(self.entries[p].entry_date.as_str(), date)
            invariant
                p <= self.entries.len(),
                es == self@.entries,
                self.entries.deep_view() == es,
                forall|j: int| 0 <= j < p ==> crate::text::lex_lt(
                    (#[trigger] es[j].entry_date),
                    date@,
                ),
            decreases self.entries.len() - p,
        {
            p = p + 1;
        }
        proof {
            let q = spec_insert_pos(es, date@);
            if q < p {
                assert(crate::text::lex_lt(es[q].entry_date, date@));
                assert(false);
            }
            if q > p {
                assert(crate::text::lex_lt(es[p as int].entry_date, date@));
                assert(false);
            }
        }
        p
    }

    /// Update the entry for the date, or insert a fresh one, with the given
    /// timestamp and candidate id for the insert path. The shadow index row
    /// changes in the same step.
    pub fn upsert_entry_at(
        &mut self,
        entry_date: &str,
        content_json: &str,
        now: i64,
        id: &str,
    ) -> (r: Result<DiaryEntry, AppError>)
        requires
            old(self).wf(),
            old(self).migrated(),
        ensures
            final(self).wf(),
            final(self).migrated(),
            final(self)@ == spec_upsert_entry(
                old(self)@,
                entry_date@,
                content_json@,
                now as int,
                id@,
            ).0,
            entry_result_view(&r) == spec_upsert_entry(
                old(self)@,
                entry_date@,
                content_json@,
                now as int,
                id@,
            ).1,
    {
        let ghost pre = self@;
        if parse_date(entry_date).is_none() {
            return Err(AppError::InvalidEntryDate(entry_date.to_owned()));
        }
        match self.find_date_index(entry_date) {
            Some(k) => {
                proof {
                    lemma_date_index_props(pre.entries, entry_date@);
                    assert(pre.index.len() == pre.entries.len());
                }
                let old_e = &self.entries[k];
                let new_e = DiaryEntry {
                    id: old_e.id.clone(),
                    entry_date: old_e.entry_date.clone(),
                    content_json: content_json.to_owned(),
                    mood: clone_opt_string(&old_e.mood),
                    mood_emoji: clone_opt_string(&old_e.mood_emoji),
                    created_at: old_e.created_at,
                    updated_at: now,
                };
                let row = project_entry(&new_e);
                let result = new_e.clone();
                let ghost ev = new_e@;
                self.entries[k] = new_e;
                self.index[k] = row;
                proof {
                    assert(ev == spec_content_updated(pre.entries[k as int], content_json@, now as int));
                    assert(self@.entries =~= pre.entries.update(k as int, ev));
                    assert(self@.index =~= pre.index.update(k as int, spec_project(ev)));
                    assert(self@ =~= spec_replace_entry(pre, k as int, ev));
                    lemma_replace_entry_wf(pre, k as int, ev);
                }
                Ok(result)
            },
            None => {
                proof {
                    lemma_date_index_props(pre.entries, entry_date@);
                }
                if self.contains_entry_id(id) {
                    return Err(AppError::Database("duplicate entry id".to_owned()));
                }
                let p = self.entry_insert_pos(entry_date);
                let e = DiaryEntry {
                    id: id.to_owned(),
                    entry_date: entry_date.to_owned(),
                    content_json: content_json.to_owned(),
                    mood: None,
                    mood_emoji: None,
                    created_at: now,
                    updated_at: now,
                };
                let row = project_entry(&e);
                let result = e.clone();
                let ghost ev = e@;
                let ghost exec_entries = self.entries@;
                let ghost exec_index = self.index@;
                proof {
                    lemma_insert_pos_props(pre.entries, entry_date@);
                    assert(pre.index.len() == pre.entries.len());
                }
                self.entries.insert(p, e);
                self.index.insert(p, row);
                proof {
                    assert(ev == spec_new_entry(id@, entry_date@, content_json@, None, None, now as int));
                    exec_entries.insert_ensures(p as int, e);
                    exec_index.insert_ensures(p as int, row);
                    pre.entries.insert_ensures(p as int, ev);
                    pre.index.insert_ensures(p as int, spec_project(ev));
                    assert(self@.entries =~= pre.entries.insert(p as int, ev));
                    assert(self@.index =~= pre.index.insert(p as int, spec_project(ev)));
                    assert(self@ =~= spec_insert_entry(pre, ev));
                    lemma_insert_entry_wf(pre, ev);
                }
                Ok(result)
            },
        }
    }

    /// [`Store::upsert_entry_at`] stamped with the clock and a fresh id.
    pub fn upsert_entry(&mut self, entry_date: &str, content_json: &str) -> (r: Result<
        DiaryEntry,
        AppError,
    >)
        requires
            old(self).wf(),
            old(self).migrated(),
        ensures
            final(self).wf(),
            final(self).migrated(),
            exists|t: int, uid: Seq<char>|
                {
                    &&& uid.len() == 36
                    &&& final(self)@ == spec_upsert_entry(
                        old(self)@,
                        entry_date@,
                        content_json@,
                        t,
                        uid,
                    ).0
                    &&& entry_result_view(&r) == spec_upsert_entry(
                        old(self)@,
                        entry_date@,
                        content_json@,
                        t,
                        uid,
                    ).1
                },
    {
        let now = now_millis();
        let id = new_uuid();
        let r = self.upsert_entry_at(entry_date, content_json, now, id.as_str());
        r
    }

    /// The entry for the date, if any.
    pub fn get_entry(&self, entry_date: &str) -> (r: Result<Option<DiaryEntry>, AppError>)
        requires
            self.wf(),
            self.migrated(),
        ensures
            opt_entry_result_view(&r) == spec_get_entry(self@, entry_date@),
    {
        if parse_date(entry_date).is_none() {
            return Err(AppError::InvalidEntryDate(entry_date.to_owned()));
        }
        match self.find_date_index(entry_date) {
            Some(k) => Ok(Some(self.entries[k].clone())),
            None => Ok(None),
        }
    }

    /// Update only the mood fields of the entry for the date, or insert a
    /// fresh entry carrying the mood and an empty document as content.
    pub fn upsert_entry_mood_at(
        &mut self,
        entry_date: &str,
        mood: Option<&str>,
        mood_emoji: Option<&str>,
        now: i64,
        id: &str,
    ) -> (r: Result<DiaryEntry, AppError>)
        requires
            old(self).wf(),
            old(self).migrated(),
        ensures
            final(self).wf(),
            final(self).migrated(),
            final(self)@ == spec_upsert_entry_mood(
                old(self)@,
                entry_date@,
                mood.deep_view(),
                mood_emoji.deep_view(),
                now as int,
                id@,
            ).0,
            entry_result_view(&r) == spec_upsert_entry_mood(
                old(self)@,
                entry_date@,
                mood.deep_view(),
                mood_emoji.deep_view(),
                now as int,
                id@,
            ).1,
    {
        let ghost pre = self@;
        if parse_date(entry_date).is_none() {
            return Err(AppError::InvalidEntryDate(entry_date.to_owned()));
        }
        let mood_owned: Option<String> = match mood {
            Some(m) => Some(m.to_owned()),
            None => None,
        };
        let emoji_owned: Option<String> = match mood_emoji {
            Some(m) => Some(m.to_owned()),
            None => None,
        };
        proof {
            assert(mood_owned.deep_view() == mood.deep_view());
            assert(emoji_owned.deep_view() == mood_emoji.deep_view());
        }
        match self.find_date_index(entry_date) {
            Some(k) => {
                proof {
                    lemma_date_index_props(pre.entries, entry_date@);
                    assert(pre.index.len() == pre.entries.len());
                }
                let old_e = &self.entries[k];
                let new_e = DiaryEntry {
                    id: old_e.id.clone(),
                    entry_date: old_e.entry_date.clone(),
                    content_json: old_e.content_json.clone(),
                    mood: mood_owned,
                    mood_emoji: emoji_owned,
                    created_at: old_e.created_at,
                    updated_at: now,
                };
                let row = project_entry(&new_e);
                let result = new_e.clone();
                let ghost ev = new_e@;
                self.entries[k] = new_e;
                self.index[k] = row;
                proof {
                    assert(ev == spec_mood_updated(
                        pre.entries[k as int],
                        mood.deep_view(),
                        mood_emoji.deep_view(),
                        now as int,
                    ));
                    assert(self@.entries =~= pre.entries.update(k as int, ev));
                    assert(self@.index =~= pre.index.update(k as int, spec_project(ev)));
                    assert(self@ =~= spec_replace_entry(pre, k as int, ev));
                    lemma_replace_entry_wf(pre, k as int, ev);
                }
                Ok(result)
            },
            None => {
                proof {
                    lemma_date_index_props(pre.entries, entry_date@);
                }
                if self.contains_entry_id(id) {
                    return Err(AppError::Database("duplicate entry id".to_owned()));
                }
                let p = self.entry_insert_pos(entry_date);
                let e = DiaryEntry {
                    id: id.to_owned(),
                    entry_date: entry_date.to_owned(),
                    content_json: String::from_str("{}"),
                    mood: mood_owned,
                    mood_emoji: emoji_owned,
                    created_at: now,
                    updated_at: now,
                };
                let row = project_entry(&e);
                let result = e.clone();
                let ghost ev = e@;
                let ghost exec_entries = self.entries@;
                let ghost exec_index = self.index@;
                proof {
                    lemma_insert_pos_props(pre.entries, entry_date@);
                    assert(pre.index.len() == pre.entries.len());
                }
                self.entries.insert(p, e);
                self.index.insert(p, row);
                proof {
                    assert(ev == spec_new_entry(
                        id@,
                        entry_date@,
                        "{}"@,
                        mood.deep_view(),
                        mood_emoji.deep_view(),
                        now as int,
                    ));
                    exec_entries.insert_ensures(p as int, e);
                    exec_index.insert_ensures(p as int, row);
                    pre.entries.insert_ensures(p as int, ev);
                    pre.index.insert_ensures(p as int, spec_project(ev));
                    assert(self@.entries =~= pre.entries.insert(p as int, ev));
                    assert(self@.index =~= pre.index.insert(p as int, spec_project(ev)));
                    assert(self@ =~= spec_insert_entry(pre, ev));
                    lemma_insert_entry_wf(pre, ev);
                }
                Ok(result)
            },
        }
    }

    /// [`Store::upsert_entry_mood_at`] stamped with the clock and a fresh id.
    pub fn upsert_entry_mood(
        &mut self,
        entry_date: &str,
        mood: Option<&str>,
        mood_emoji: Option<&str>,
    ) -> (r: Result<DiaryEntry, AppError>)
        requires
            old(self).wf(),
            old(self).migrated(),
        ensures
            final(self).wf(),
            final(self).migrated(),
            exists|t: int, uid: Seq<char>|
                {
                    &&& uid.len() == 36
                    &&& final(self)@ == spec_upsert_entry_mood(
                        old(self)@,
                        entry_date@,
                        mood.deep_view(),
                        mood_emoji.deep_view(),
                        t,
                        uid,
                    ).0
                    &&& entry_result_view(&r) == spec_upsert_entry_mood(
                        old(self)@,
                        entry_date@,
                        mood.deep_view(),
                        mood_emoji.deep_view(),
                        t,
                        uid,
                    ).1
                },
    {
        let now = now_millis();
        let id = new_uuid();
        self.upsert_entry_mood_at(entry_date, mood, mood_emoji, now, id.as_str())
    }

    /// Delete the entry for the date. Its index row and its audit records
    /// leave in the same step; the result says whether a row was present.
    pub fn delete_entry(&mut self, entry_date: &str) -> (r: Result<bool, AppError>)
        requires
            old(self).wf(),
            old(self).migrated(),
        ensures
            final(self).wf(),
            final(self).migrated(),
            final(self)@ == spec_delete_entry(old(self)@, entry_date@).0,
            bool_result_view(&r) == spec_delete_entry(old(self)@, entry_date@).1,
    {
        let ghost pre = self@;
        if parse_date(entry_date).is_none() {
            return Err(AppError::InvalidEntryDate(entry_date.to_owned()));
        }
        match self.find_date_index(entry_date) {
            None => Ok(false),
            Some(k) => {
                proof {
                    lemma_date_index_props(pre.entries, entry_date@);
                    assert(pre.index.len() == pre.entries.len());
                }
                let ghost exec_entries = self.entries@;
                let ghost exec_index = self.index@;
                let victim = self.entries.remove(k);
                let _ = self.index.remove(k);
                proof {
                    exec_entries.remove_ensures(k as int);
                    exec_index.remove_ensures(k as int);
                    pre.entries.remove_ensures(k as int);
                    pre.index.remove_ensures(k as int);
                    assert(self.entries.deep_view() =~= pre.entries.remove(k as int));
                    assert(self.index.deep_view() =~= pre.index.remove(k as int));
                    assert(victim@ == pre.entries[k as int]);
                }
                let ghost mid = self@;
                let mut kept: Vec<AIOperation> = Vec::new();
                let mut i: usize = 0;
                proof {
                    assert(pre.ai_operations.take(0) =~= Seq::<crate::models::OpView>::empty());
                }
                while i < self.ai_operations.len()
                    invariant
                        i <= self.ai_operations.len(),
                        self@ == mid,
                        mid.ai_operations == pre.ai_operations,
                        victim@ == pre.entries[k as int],
                        kept.deep_view() =~= ops_without_entry(
                            pre.ai_operations.take(i as int),
                            victim@.id,
                        ),
                    decreases self.ai_operations.len() - i,
                {
                    let ghost kv0 = kept.deep_view();
                    if !str_eq(self.ai_operations[i].entry_id.as_str(), victim.id.as_str()) {
                        kept.push(self.ai_operations[i].clone());
                    }
                    proof {
                        assert(pre.ai_operations.take(i + 1).drop_last() =~= pre.ai_operations.take(
                            i as int,
                        ));
                        assert(pre.ai_operations.take(i + 1).last() == pre.ai_operations[i as int]);
                        if pre.ai_operations[i as int].entry_id != victim@.id {
                            assert(kept.deep_view() =~= kv0.push(pre.ai_operations[i as int]));
                        }
                        assert(kept.deep_view() =~= ops_without_entry(
                            pre.ai_operations.take(i + 1),
                            victim@.id,
                        ));
                    }
                    i = i + 1;
                }
                proof {
                    assert(pre.ai_operations.take(pre.ai_operations.len() as int)
                        =~= pre.ai_operations);
                }
                self.ai_operations = kept;
                proof {
                    assert(self@ =~= spec_delete_entry(pre, entry_date@).0);
                    lemma_delete_entry_wf(pre, entry_date@);
                }
                Ok(true)
            },
        }
    }

    /// The entries of the given `YYYY-MM` month, most recent first.
    pub fn list_entries(&self, month: &str) -> (r: Result<Vec<DiaryEntry>, AppError>)
        requires
            self.wf(),
            self.migrated(),
        ensures
            entries_result_view(&r) == spec_list_entries(self@, month@),
    {
        if !is_valid_month(month) {
            return Err(AppError::InvalidEntryDate(month.to_owned()));
        }
        let ghost es = self@.entries;
        let mut out: Vec<DiaryEntry> = Vec::new();
        let mut i: usize = self.entries.len();
        proof {
            assert(out.deep_view() =~= Seq::<EntryView>::empty());
        }
        while i > 0
            invariant
                i <= self.entries.len(),
                es == self@.entries,
                self.entries.deep_view() == es,
                spec_month_hits_desc(es, month@, es.len() as int) =~= out.deep_view()
                    + spec_month_hits_desc(es, month@, i as int),
            decreases i,
        {
            let ghost ov0 = out.deep_view();
            if starts_with_str(self.entries[i - 1].entry_date.as_str(), month) {
                out.push(self.entries[i - 1].clone());
                proof {
                    assert(out.deep_view() =~= ov0.push(es[i - 1]));
                    assert(ov0 + (seq![es[i - 1]] + spec_month_hits_desc(es, month@, i - 1))
                        =~= ov0.push(es[i - 1]) + spec_month_hits_desc(es, month@, i - 1));
                }
            }
            i = i - 1;
        }
        proof {
            assert(out.deep_view() + spec_month_hits_desc(es, month@, 0) =~= out.deep_view());
        }
        Ok(out)
    }

    /// The entries of the month carrying the given mood, most recent first.
    pub fn list_entries_by_mood(&self, month: &str, mood: &str) -> (r: Result<
        Vec<DiaryEntry>,
        AppError,
    >)
        requires
            self.wf(),
            self.migrated(),
        ensures
            entries_result_view(&r) == spec_list_entries_by_mood(self@, month@, mood@),
    {
        if !is_valid_month(month) {
            return Err(AppError::InvalidEntryDate(month.to_owned()));
        }
        let ghost es = self@.entries;
        let mut out: Vec<DiaryEntry> = Vec::new();
        let mut i: usize = self.entries.len();
        proof {
            assert(out.deep_view() =~= Seq::<EntryView>::empty());
        }
        while i > 0
            invariant
                i <= self.entries.len(),
                es == self@.entries,
                self.entries.deep_view() == es,
                spec_mood_hits_desc(es, month@, mood@, es.len() as int) =~= out.deep_view()
                    + spec_mood_hits_desc(es, month@, mood@, i as int),
            decreases i,
        {
            let ghost ov0 = out.deep_view();
            let in_month = starts_with_str(self.entries[i - 1].entry_date.as_str(), month);
            let mood_hit = match &self.entries[i - 1].mood {
                Some(m) => str_eq(m.as_str(), mood),
                None => false,
            };
            if in_month && mood_hit {
                out.push(self.entries[i - 1].clone());
                proof {
                    assert(out.deep_view() =~= ov0.push(es[i - 1]));
                    assert(ov0 + (seq![es[i - 1]] + spec_mood_hits_desc(es, month@, mood@, i - 1))
                        =~= ov0.push(es[i - 1]) + spec_mood_hits_desc(es, month@, mood@, i - 1));
                }
            }
            i = i - 1;
        }
        proof {
            assert(out.deep_view() + spec_mood_hits_desc(es, month@, mood@, 0) =~= out.deep_view());
        }
        Ok(out)
    }

    /// Whether any audit record carries the given id.
    fn contains_op_id(&self, id: &str) -> (r: bool)
        requires
            self.wf(),
        ensures
            r == (spec_op_id_index(self@.ai_operations, id@) >= 0),
    {
        let ghost ops = self@.ai_operations;
        proof {
            lemma_op_id_index_props(ops, id@);
        }
        let mut i: usize = 0;
        while i < self.ai_operations.len()
            invariant
                i <= self.ai_operations.len(),
                ops == self@.ai_operations,
                self.ai_operations.deep_view() == ops,
                forall|j: int| 0 <= j < i ==> (#[trigger] ops[j].id) != id@,
            decreases self.ai_operations.len() - i,
        {
            if str_eq(self.ai_operations[i].id.as_str(), id) {
                proof {
                    lemma_op_id_index_props(ops, id@);
                    assert(ops[i as int].id == id@);
                    let k = spec_op_id_index(ops, id@);
                    if k == -1 {
                        assert(false);
                    }
                }
                return true;
            }
            i = i + 1;
        }
        proof {
            lemma_op_id_index_props(ops, id@);
            let k = spec_op_id_index(ops, id@);
            if k >= 0 {
                assert(ops[k].id == id@);
                assert(false);
            }
        }
        false
    }

    /// The time-sorted position for a new audit record stamped `t`.
    fn op_insert_pos(&self, t: i64) -> (p: usize)
        requires
            self.wf(),
        ensures
            p as int == spec_op_insert_pos(self@.ai_operations, t as int),
            p <= self@.ai_operations.len(),
    {
        let ghost ops = self@.ai_operations;
        proof {
            lemma_op_insert_pos_props(ops, t as int);
        }
        let mut p: usize = 0;
        while p < self.ai_operations.len() && self.ai_operations[p].created_at <= t
            invariant
                p <= self.ai_operations.len(),
                ops == self@.ai_operations,
                self.ai_operations.deep_view() == ops,
                forall|j: int| 0 <= j < p ==> (#[trigger] ops[j].created_at) <= t as int,
            decreases self.ai_operations.len() - p,
        {
            p = p + 1;
        }
        proof {
            lemma_op_insert_pos_props(ops, t as int);
            let q = spec_op_insert_pos(ops, t as int);
            if q < p {
                assert(ops[q].created_at > t as int);
                assert(false);
            }
            if q > p {
                assert(ops[p as int].created_at <= t as int);
                assert(false);
            }
        }
        p
    }

    /// Record one externally performed text transformation against a live
    /// entry, stamped `now` and keyed by the given candidate id.
    pub fn create_ai_operation_at(
        &mut self,
        entry_id: &str,
        op_type: &str,
        original_text: &str,
        result_text: &str,
        provider: &str,
        model: &str,
        now: i64,
        id: &str,
    ) -> (r: Result<AIOperation, AppError>)
        requires
            old(self).wf(),
            old(self).migrated(),
        ensures
            final(self).wf(),
            final(self).migrated(),
            final(self)@ == spec_create_ai_operation(
                old(self)@,
                entry_id@,
                op_type@,
                original_text@,
                result_text@,
                provider@,
                model@,
                now as int,
                id@,
            ).0,
            op_result_view(&r) == spec_create_ai_operation(
                old(self)@,
                entry_id@,
                op_type@,
                original_text@,
                result_text@,
                provider@,
                model@,
                now as int,
                id@,
            ).1,
    {
        let ghost pre = self@;
        if !self.contains_entry_id(entry_id) {
            return Err(AppError::EntryNotFound(entry_id.to_owned()));
        }
        if self.contains_op_id(id) {
            return Err(AppError::Database("duplicate ai operation id".to_owned()));
        }
        let p = self.op_insert_pos(now);
        let o = AIOperation {
            id: id.to_owned(),
            entry_id: entry_id.to_owned(),
            op_type: op_type.to_owned(),
            original_text: original_text.to_owned(),
            result_text: result_text.to_owned(),
            provider: provider.to_owned(),
            model: model.to_owned(),
            created_at: now,
        };
        let result = o.clone();
        let ghost ov = o@;
        let ghost exec_ops = self.ai_operations@;
        self.ai_operations.insert(p, o);
        proof {
            exec_ops.insert_ensures(p as int, o);
            pre.ai_operations.insert_ensures(p as int, ov);
            assert(self@.ai_operations =~= pre.ai_operations.insert(p as int, ov));
            assert(self@ =~= spec_insert_op(pre, ov));
            lemma_op_id_index_props(pre.ai_operations, id@);
            lemma_insert_op_wf(pre, ov);
        }
        Ok(result)
    }

    /// [`Store::create_ai_operation_at`] stamped with the clock and a fresh
    /// id.
    pub fn create_ai_operation(
        &mut self,
        entry_id: &str,
        op_type: &str,
        original_text: &str,
        result_text: &str,
        provider: &str,
        model: &str,
    ) -> (r: Result<AIOperation, AppError>)
        requires
            old(self).wf(),
            old(self).migrated(),
        ensures
            final(self).wf(),
            final(self).migrated(),
            exists|t: int, uid: Seq<char>|
                {
                    &&& uid.len() == 36
                    &&& final(self)@ == spec_create_ai_operation(
                        old(self)@,
                        entry_id@,
                        op_type@,
                        original_text@,
                        result_text@,
                        provider@,
                        model@,
                        t,
                        uid,
                    ).0
                    &&& op_result_view(&r) == spec_create_ai_operation(
                        old(self)@,
                        entry_id@,
                        op_type@,
                        original_text@,
                        result_text@,
                        provider@,
                        model@,
                        t,
                        uid,
                    ).1
                },
    {
        let now = now_millis();
        let id = new_uuid();
        self.create_ai_operation_at(
            entry_id,
            op_type,
            original_text,
            result_text,
            provider,
            model,
            now,
            id.as_str(),
        )
    }

    /// The audit records of one entry, newest first.
    pub fn list_ai_operations(&self, entry_id: &str) -> (r: Result<Vec<AIOperation>, AppError>)
        requires
            self.wf(),
            self.migrated(),
        ensures
            ops_result_view(&r) == Ok::<Seq<OpView>, crate::error::ErrorView>(
                spec_list_ai_operations(self@, entry_id@),
            ),
    {
        let ghost ops = self@.ai_operations;
        let mut out: Vec<AIOperation> = Vec::new();
        let mut i: usize = self.ai_operations.len();
        proof {
            assert(out.deep_view() =~= Seq::<OpView>::empty());
        }
        while i > 0
            invariant
                i <= self.ai_operations.len(),
                ops == self@.ai_operations,
                self.ai_operations.deep_view() == ops,
                spec_ops_for_desc(ops, entry_id@, ops.len() as int) =~= out.deep_view()
                    + spec_ops_for_desc(ops, entry_id@, i as int),
            decreases i,
        {
            let ghost ov0 = out.deep_view();
            if str_eq(self.ai_operations[i - 1].entry_id.as_str(), entry_id) {
                out.push(self.ai_operations[i - 1].clone());
                proof {
                    assert(out.deep_view() =~= ov0.push(ops[i - 1]));
                    assert(ov0 + (seq![ops[i - 1]] + spec_ops_for_desc(ops, entry_id@, i - 1))
                        =~= ov0.push(ops[i - 1]) + spec_ops_for_desc(ops, entry_id@, i - 1));
                }
            }
            i = i - 1;
        }
        proof {
            assert(out.deep_view() + spec_ops_for_desc(ops, entry_id@, 0) =~= out.deep_view());
        }
        Ok(out)
    }

    /// Delete every audit record of one entry; the result counts the
    /// removed rows.
    pub fn delete_ai_operations_for_entry(&mut self, entry_id: &str) -> (r: Result<u64, AppError>)
        requires
            old(self).wf(),
            old(self).migrated(),
        ensures
            final(self).wf(),
            final(self).migrated(),
            final(self)@ == spec_delete_ops_for(old(self)@, entry_id@).0,
            r matches Ok(n) && n as int == spec_delete_ops_for(old(self)@, entry_id@).1,
    {
        let ghost pre = self@;
        let before = self.ai_operations.len();
        let mut kept: Vec<AIOperation> = Vec::new();
        let mut i: usize = 0;
        proof {
            assert(pre.ai_operations.take(0) =~= Seq::<OpView>::empty());
        }
        while i < self.ai_operations.len()
            invariant
                i <= self.ai_operations.len(),
                self@ == pre,
                kept.len() <= i,
                kept.deep_view() =~= crate::model::ops_without_entry(
                    pre.ai_operations.take(i as int),
                    entry_id@,
                ),
            decreases self.ai_operations.len() - i,
        {
            let ghost kv0 = kept.deep_view();
            if !str_eq(self.ai_operations[i].entry_id.as_str(), entry_id) {
                kept.push(self.ai_operations[i].clone());
            }
            proof {
                assert(pre.ai_operations.take(i + 1).drop_last() =~= pre.ai_operations.take(
                    i as int,
                ));
                assert(pre.ai_operations.take(i + 1).last() == pre.ai_operations[i as int]);
                if pre.ai_operations[i as int].entry_id != entry_id@ {
                    assert(kept.deep_view() =~= kv0.push(pre.ai_operations[i as int]));
                }
                assert(kept.deep_view() =~= crate::model::ops_without_entry(
                    pre.ai_operations.take(i + 1),
                    entry_id@,
                ));
            }
            i = i + 1;
        }
        proof {
            assert(pre.ai_operations.take(pre.ai_operations.len() as int) =~= pre.ai_operations);
        }
        let removed = before - kept.len();
        self.ai_operations = kept;
        proof {
            assert(self@ =~= spec_delete_ops_for(pre, entry_id@).0);
            lemma_delete_ops_for_wf(pre, entry_id@);
        }
        Ok(removed as u64)
    }

    /// Position of the setting with the given key, if any.
    fn find_setting_index(&self, key: &str) -> (r: Option<usize>)
        requires
            self.wf(),
        ensures
            match r {
                Some(i) => 0 <= i < self@.settings.len() && i as int == spec_setting_index(
                    self@.settings,
                    key@,
                ),
                None => spec_setting_index(self@.settings, key@) == -1,
            },
    {
        let ghost st = self@.settings;
        proof {
            lemma_setting_index_props(st, key@);
        }
        let mut i: usize = 0;
        while i < self.settings.len()
            invariant
                i <= self.settings.len(),
                st == self@.settings,
                self.settings.deep_view() == st,
                forall|j: int| 0 <= j < i ==> (#[trigger] st[j].key) != key@,
            decreases self.settings.len() - i,
        {
            if str_eq(self.settings[i].key.as_str(), key) {
                proof {
                    lemma_setting_index_props(st, key@);
                    assert(st[i as int].key == key@);
                    let k = spec_setting_index(st, key@);
                    assert(k == i as int);
                }
                return Some(i);
            }
            i = i + 1;
        }
        proof {
            lemma_setting_index_props(st, key@);
            let k = spec_setting_index(st, key@);
            if k >= 0 {
                assert(st[k].key == key@);
                assert(false);
            }
        }
        None
    }

    /// Save a key/value setting, stamped `now`: an upsert by key.
    pub fn save_setting_at(&mut self, key: &str, value: &str, now: i64) -> (r: Result<
        (),
        AppError,
    >)
        requires
            old(self).wf(),
            old(self).migrated(),
        ensures
            final(self).wf(),
            final(self).migrated(),
            final(self)@ == spec_save_setting(old(self)@, key@, value@, now as int),
            r is Ok,
    {
        let ghost pre = self@;
        let row = AppSetting { key: key.to_owned(), value: value.to_owned(), updated_at: now };
        let ghost rv = row@;
        match self.find_setting_index(key) {
            Some(k) => {
                self.settings[k] = row;
                proof {
                    assert(self@.settings =~= pre.settings.update(k as int, rv));
                    assert(self@ =~= spec_save_setting(pre, key@, value@, now as int));
                    lemma_save_setting_wf(pre, key@, value@, now as int);
                }
            },
            None => {
                let ghost exec_settings = self.settings@;
                self.settings.push(row);
                proof {
                    assert(self@.settings =~= pre.settings.push(rv));
                    assert(self@ =~= spec_save_setting(pre, key@, value@, now as int));
                    lemma_save_setting_wf(pre, key@, value@, now as int);
                }
            },
        }
        Ok(())
    }

    /// [`Store::save_setting_at`] stamped with the clock.
    pub fn save_setting(&mut self, key: &str, value: &str) -> (r: Result<(), AppError>)
        requires
            old(self).wf(),
            old(self).migrated(),
        ensures
            final(self).wf(),
            final(self).migrated(),
            r is Ok,
            exists|t: int| final(self)@ == spec_save_setting(old(self)@, key@, value@, t),
    {
        let now = now_millis();
        self.save_setting_at(key, value, now)
    }

    /// The value saved under the key, if any.
    pub fn get_setting(&self, key: &str) -> (r: Result<Option<String>, AppError>)
        requires
            self.wf(),
            self.migrated(),
        ensures
            opt_string_result_view(&r) == Ok::<Option<Seq<char>>, crate::error::ErrorView>(
                spec_get_setting(self@, key@),
            ),
    {
        match self.find_setting_index(key) {
            Some(k) => Ok(Some(self.settings[k].value.clone())),
            None => Ok(None),
        }
    }

    /// Full-text search over the shadow index: the entries whose projected
    /// content or mood text contains the trimmed query, most recent first.
    /// A blank query returns no results and no error.
    pub fn search_entries(&self, query: &str) -> (r: Result<Vec<DiaryEntry>, AppError>)
        requires
            self.wf(),
            self.migrated(),
        ensures
            entries_result_view(&r) == Ok::<Seq<EntryView>, crate::error::ErrorView>(
                spec_search_entries(self@, query@),
            ),
    {
        let trimmed = trim_ascii(query);
        let mut out: Vec<DiaryEntry> = Vec::new();
        proof {
            assert(out.deep_view() =~= Seq::<EntryView>::empty());
        }
        if trimmed.unicode_len() == 0 {
            return Ok(out);
        }
        let ghost es = self@.entries;
        let ghost ix = self@.index;
        proof {
            assert(ix.len() == es.len());
        }
        let mut i: usize = self.entries.len();
        while i > 0
            invariant
                i <= self.entries.len(),
                es == self@.entries,
                ix == self@.index,
                self.entries.deep_view() == es,
                self.index.deep_view() == ix,
                ix.len() == es.len(),
                trimmed@ == crate::text::spec_trim(query@),
                trimmed@.len() > 0,
                spec_search_hits_desc(es, ix, trimmed@, es.len() as int) =~= out.deep_view()
                    + spec_search_hits_desc(es, ix, trimmed@, i as int),
            decreases i,
        {
            let ghost ov0 = out.deep_view();
            let row = &self.index[i - 1];
            let hit = contains_str(row.content.as_str(), trimmed) || contains_str(
                row.mood_text.as_str(),
                trimmed,
            );
            proof {
                assert(hit == index_row_matches(ix[i - 1], trimmed@));
            }
            if hit {
                out.push(self.entries[i - 1].clone());
                proof {
                    assert(out.deep_view() =~= ov0.push(es[i - 1]));
                    assert(ov0 + (seq![es[i - 1]] + spec_search_hits_desc(
                        es,
                        ix,
                        trimmed@,
                        i - 1,
                    )) =~= ov0.push(es[i - 1]) + spec_search_hits_desc(es, ix, trimmed@, i - 1));
                }
            }
            i = i - 1;
        }
        proof {
            assert(out.deep_view() + spec_search_hits_desc(es, ix, trimmed@, 0)
                =~= out.deep_view());
        }
        Ok(out)
    }

    /// Total entry count and streaks, measured against the given `today`.
    pub fn writing_stats_at(&self, today: Date) -> (r: WritingStats)
        requires
            self.wf(),
            self.migrated(),
            today.valid(),
        ensures
            r.total_entries as int == spec_i64_sat(self@.entries.len() as int),
            r.current_streak as int == spec_i64_sat(
                spec_current_streak(spec_dates_of(self@), today),
            ),
            r.longest_streak as int == spec_i64_sat(spec_longest_streak(spec_dates_of(self@))),
    {
        let ghost es = self@.entries;
        let mut dates: Vec<String> = Vec::new();
        let mut i: usize = 0;
        proof {
            assert(dates.deep_view() =~= spec_dates_of(self@).take(0));
        }
        while i < self.entries.len()
            invariant
                i <= self.entries.len(),
                es == self@.entries,
                self.entries.deep_view() == es,
                dates.deep_view() =~= spec_dates_of(self@).take(i as int),
            decreases self.entries.len() - i,
        {
            let ghost dv0 = dates.deep_view();
            dates.push(self.entries[i].entry_date.clone());
            proof {
                assert(dates.deep_view() =~= dv0.push(es[i as int].entry_date));
                assert(dates.deep_view() =~= spec_dates_of(self@).take(i + 1));
            }
            i = i + 1;
        }
        proof {
            assert(spec_dates_of(self@).take(es.len() as int) =~= spec_dates_of(self@));
        }
        let cs = calculate_current_streak(&dates, today);
        let ls = calculate_longest_streak(&dates);
        WritingStats {
            total_entries: sat_count(self.entries.len()),
            current_streak: sat_count(cs),
            longest_streak: sat_count(ls),
        }
    }

    /// [`Store::writing_stats_at`] measured against the current UTC date.
    /// When the clock reports a date outside the representable range, the
    /// earliest epoch date stands in for it.
    pub fn get_writing_stats(&self) -> (r: Result<WritingStats, AppError>)
        requires
            self.wf(),
            self.migrated(),
        ensures
            r matches Ok(st) && {
                &&& st.total_entries as int == spec_i64_sat(self@.entries.len() as int)
                &&& exists|d: Date|
                    d.valid() && st.current_streak as int == spec_i64_sat(
                        spec_current_streak(spec_dates_of(self@), d),
                    )
                &&& st.longest_streak as int == spec_i64_sat(spec_longest_streak(spec_dates_of(self@)))
            },
    {
        let now_date = match today() {
            Some(d) => d,
            None => Date { year: 1970, month: 1, day: 1 },
        };
        let st = self.writing_stats_at(now_date);
        proof {
            assert(exists|d: Date|
                d.valid() && st.current_streak as int == spec_i64_sat(
                    #[trigger] spec_current_streak(spec_dates_of(self@), d),
                )) by {
                assert(now_date.valid() && st.current_streak as int == spec_i64_sat(
                    spec_current_streak(spec_dates_of(self@), now_date),
                ));
            }
        }
        Ok(st)
    }

    /// A complete, order-stable snapshot: entries ascending by date, audit
    /// records ascending by creation time, stamped `now`.
    pub fn export_all_data_at(&self, now: i64) -> (r: ExportData)
        requires
            self.wf(),
            self.migrated(),
        ensures
            r@.version == "1.0"@,
            r@.exported_at == now as int,
            r@.entries == self@.entries,
            r@.ai_operations == self@.ai_operations,
    {
        let ghost es = self@.entries;
        let ghost os = self@.ai_operations;
        let mut entries: Vec<DiaryEntry> = Vec::new();
        let mut i: usize = 0;
        proof {
            assert(entries.deep_view() =~= es.take(0));
        }
        while i < self.entries.len()
            invariant
                i <= self.entries.len(),
                es == self@.entries,
                self.entries.deep_view() == es,
                entries.deep_view() =~= es.take(i as int),
            decreases self.entries.len() - i,
        {
            let ghost dv0 = entries.deep_view();
            entries.push(self.entries[i].clone());
            proof {
                assert(entries.deep_view() =~= dv0.push(es[i as int]));
                assert(entries.deep_view() =~= es.take(i + 1));
            }
            i = i + 1;
        }
        let mut ai_operations: Vec<AIOperation> = Vec::new();
        let mut j: usize = 0;
        proof {
            assert(es.take(es.len() as int) =~= es);
            assert(ai_operations.deep_view() =~= os.take(0));
        }
        while j < self.ai_operations.len()
            invariant
                j <= self.ai_operations.len(),
                os == self@.ai_operations,
                self.ai_operations.deep_view() == os,
                ai_operations.deep_view() =~= os.take(j as int),
            decreases self.ai_operations.len() - j,
        {
            let ghost dv0 = ai_operations.deep_view();
            ai_operations.push(self.ai_operations[j].clone());
            proof {
                assert(ai_operations.deep_view() =~= dv0.push(os[j as int]));
                assert(ai_operations.deep_view() =~= os.take(j + 1));
            }
            j = j + 1;
        }
        proof {
            assert(os.take(os.len() as int) =~= os);
        }
        ExportData {
            version: String::from_str("1.0"),
            exported_at: now,
            entries,
            ai_operations,
        }
    }

    /// [`Store::export_all_data_at`] stamped with the clock.
    pub fn export_all_data(&self) -> (r: Result<ExportData, AppError>)
        requires
            self.wf(),
            self.migrated(),
        ensures
            r matches Ok(b) && {
                &&& b@.version == "1.0"@
                &&& b@.entries == self@.entries
                &&& b@.ai_operations == self@.ai_operations
            },
    {
        let now = now_millis();
        Ok(self.export_all_data_at(now))
    }

    /// Merge a bundle back in. A bundle entry with a new date is inserted
    /// verbatim; one whose date exists is overwritten in place only under
    /// `options.overwrite`; audit records come along only under
    /// `options.include_ai_operations`, keyed by their own id, and an
    /// existing record is never touched. A record that cannot be applied
    /// (a colliding id, an orphaned audit record) is skipped, never fatal.
    /// The count reflects inserted and overwritten entries only.
    pub fn import_data(&mut self, data: ExportData, options: ImportOptions) -> (r: Result<
        usize,
        AppError,
    >)
        requires
            old(self).wf(),
            old(self).migrated(),
        ensures
            final(self).wf(),
            final(self).migrated(),
            final(self)@ == spec_import(
                old(self)@,
                data@.entries,
                data@.ai_operations,
                options.overwrite,
                options.include_ai_operations,
            ).0,
            r matches Ok(n) && n as int == spec_import(
                old(self)@,
                data@.entries,
                data@.ai_operations,
                options.overwrite,
                options.include_ai_operations,
            ).1,
    {
        let ghost pre = self@;
        let ghost bes = data@.entries;
        let ghost bos = data@.ai_operations;
        let mut count: usize = 0;
        let mut i: usize = 0;
        proof {
            assert(bes.take(0) =~= Seq::<EntryView>::empty());
        }
        while i < data.entries.len()
            invariant
                i <= data.entries.len(),
                data.entries.deep_view() == bes,
                data.ai_operations.deep_view() == bos,
                bes.len() == data.entries.len(),
                bos.len() == data.ai_operations.len(),
                self.wf(),
                self.migrated(),
                count <= i,
                self@ == spec_import_entries(pre, bes.take(i as int), options.overwrite).0,
                count as int == spec_import_entries(pre, bes.take(i as int), options.overwrite).1,
            decreases data.entries.len() - i,
        {
            let ghost cur = self@;
            let ghost be = bes[i as int];
            let mut applied: usize = 0;
            let date_idx = self.find_date_index(data.entries[i].entry_date.as_str());
            match date_idx {
                Some(k) => {
                    if options.overwrite {
                        proof {
                            lemma_date_index_props(cur.entries, be.entry_date);
                            assert(cur.index.len() == cur.entries.len());
                        }
                        let b = &data.entries[i];
                        let old_e = &self.entries[k];
                        let new_e = DiaryEntry {
                            id: old_e.id.clone(),
                            entry_date: old_e.entry_date.clone(),
                            content_json: b.content_json.clone(),
                            mood: clone_opt_string(&b.mood),
                            mood_emoji: clone_opt_string(&b.mood_emoji),
                            created_at: old_e.created_at,
                            updated_at: b.updated_at,
                        };
                        let row = project_entry(&new_e);
                        let ghost ev = new_e@;
                        self.entries[k] = new_e;
                        self.index[k] = row;
                        applied = 1;
                        proof {
                            assert(ev == spec_entry_overwritten(cur.entries[k as int], be));
                            assert(self@.entries =~= cur.entries.update(k as int, ev));
                            assert(self@.index =~= cur.index.update(k as int, spec_project(ev)));
                            assert(self@ =~= spec_replace_entry(cur, k as int, ev));
                            lemma_replace_entry_wf(cur, k as int, ev);
                        }
                    }
                },
                None => {
                    proof {
                        lemma_date_index_props(cur.entries, be.entry_date);
                    }
                    if !self.contains_entry_id(data.entries[i].id.as_str()) {
                        let p = self.entry_insert_pos(data.entries[i].entry_date.as_str());
                        let e = data.entries[i].clone();
                        let row = project_entry(&e);
                        let ghost exec_entries = self.entries@;
                        let ghost exec_index = self.index@;
                        proof {
                            lemma_insert_pos_props(cur.entries, be.entry_date);
                            assert(cur.index.len() == cur.entries.len());
                        }
                        self.entries.insert(p, e);
                        self.index.insert(p, row);
                        applied = 1;
                        proof {
                            exec_entries.insert_ensures(p as int, e);
                            exec_index.insert_ensures(p as int, row);
                            cur.entries.insert_ensures(p as int, be);
                            cur.index.insert_ensures(p as int, spec_project(be));
                            assert(self@.entries =~= cur.entries.insert(p as int, be));
                            assert(self@.index =~= cur.index.insert(p as int, spec_project(be)));
                            assert(self@ =~= spec_insert_entry(cur, be));
                            lemma_insert_entry_wf(cur, be);
                        }
                    }
                },
            }
            count = count + applied;
            proof {
                assert(self@ == spec_import_entry_step(cur, be, options.overwrite).0);
                assert(applied as int == spec_import_entry_step(cur, be, options.overwrite).1);
                assert(bes.take(i + 1).drop_last() =~= bes.take(i as int));
                assert(bes.take(i + 1).last() == be);
            }
            i = i + 1;
        }
        proof {
            assert(bes.take(bes.len() as int) =~= bes);
        }
        if options.include_ai_operations {
            let ghost s1 = self@;
            let mut j: usize = 0;
            proof {
                assert(bos.take(0) =~= Seq::<OpView>::empty());
            }
            while j < data.ai_operations.len()
                invariant
                    j <= data.ai_operations.len(),
                    data.ai_operations.deep_view() == bos,
                    bos.len() == data.ai_operations.len(),
                    self.wf(),
                    self.migrated(),
                    self@ == spec_import_ops(s1, bos.take(j as int)),
                decreases data.ai_operations.len() - j,
            {
                let ghost cur = self@;
                let ghost bo = bos[j as int];
                let have_id = self.contains_op_id(data.ai_operations[j].id.as_str());
                if !have_id {
                    if self.contains_entry_id(data.ai_operations[j].entry_id.as_str()) {
                        let p = self.op_insert_pos(data.ai_operations[j].created_at);
                        let o = data.ai_operations[j].clone();
                        let ghost exec_ops = self.ai_operations@;
                        self.ai_operations.insert(p, o);
                        proof {
                            exec_ops.insert_ensures(p as int, o);
                            cur.ai_operations.insert_ensures(p as int, bo);
                            assert(self@.ai_operations =~= cur.ai_operations.insert(p as int, bo));
                            assert(self@ =~= spec_insert_op(cur, bo));
                            lemma_op_id_index_props(cur.ai_operations, bo.id);
                            lemma_insert_op_wf(cur, bo);
                        }
                    }
                }
                proof {
                    assert(self@ == spec_import_op_step(cur, bo));
                    assert(bos.take(j + 1).drop_last() =~= bos.take(j as int));
                    assert(bos.take(j + 1).last() == bo);
                }
                j = j + 1;
            }
            proof {
                assert(bos.take(bos.len() as int) =~= bos);
            }
        }
        Ok(count)
    }
}

/// A nonnegative machine count clamped into `i64`.
fn sat_count(n: usize) -> (r: i64)
    ensures
        r as int == spec_i64_sat(n as int),
{
    if (n as u64) > 0x7fff_ffff_ffff_ffffu64 {
        i64::MAX
    } else {
        n as i64
    }
}

} // verus!
