//! The mathematical model of the store: its view, its invariant, and the
//! transition functions that the executable operations are proved against.

use crate::error::ErrorView;
use crate::models::{EntryView, OpView, SettingView};
use crate::text::{is_prefix_of, lemma_lex_total, lemma_lex_transitive, lex_lt, contains_sub};
use vstd::prelude::*;

verus! {

/// Mathematical image of one shadow-index row.
pub ghost struct IndexView {
    pub entry_id: Seq<char>,
    pub content: Seq<char>,
    pub mood_text: Seq<char>,
}

/// Mathematical image of one applied migration step.
pub ghost struct MigrationView {
    pub version: int,
    pub applied_at: int,
}

/// Mathematical image of the whole store.
#[verifier::ext_equal]
pub ghost struct StoreView {
    pub version: int,
    pub log: Seq<MigrationView>,
    pub entries: Seq<EntryView>,
    pub index: Seq<IndexView>,
    pub ai_operations: Seq<OpView>,
    pub settings: Seq<SettingView>,
}

/// The shadow-index projection of an entry: its content and its mood text
/// (an absent mood projects to the empty string).
pub open spec fn spec_project(e: EntryView) -> IndexView {
    IndexView {
        entry_id: e.id,
        content: e.content_json,
        mood_text: match e.mood {
            Some(m) => m,
            None => Seq::empty(),
        },
    }
}

/// Entries are strictly ascending by date string, so dates are unique.
pub open spec fn entries_sorted(es: Seq<EntryView>) -> bool {
    forall|i: int, j: int|
        0 <= i < j < es.len() ==> lex_lt(#[trigger] es[i].entry_date, #[trigger] es[j].entry_date)
}

pub open spec fn entry_ids_unique(es: Seq<EntryView>) -> bool {
    forall|i: int, j: int| 0 <= i < j < es.len() ==> #[trigger] es[i].id != #[trigger] es[j].id
}

pub open spec fn has_date(es: Seq<EntryView>, date: Seq<char>) -> bool {
    exists|i: int| 0 <= i < es.len() && #[trigger] es[i].entry_date == date
}

pub open spec fn has_entry_id(es: Seq<EntryView>, id: Seq<char>) -> bool {
    exists|i: int| 0 <= i < es.len() && #[trigger] es[i].id == id
}

/// Audit records are non-strictly ascending by creation time.
pub open spec fn ops_sorted(ops: Seq<OpView>) -> bool {
    forall|i: int, j: int|
        0 <= i < j < ops.len() ==> #[trigger] ops[i].created_at <= #[trigger] ops[j].created_at
}

pub open spec fn op_ids_unique(ops: Seq<OpView>) -> bool {
    forall|i: int, j: int| 0 <= i < j < ops.len() ==> #[trigger] ops[i].id != #[trigger] ops[j].id
}

/// Every audit record belongs to a live entry.
pub open spec fn ops_reference_entries(es: Seq<EntryView>, ops: Seq<OpView>) -> bool {
    forall|k: int| 0 <= k < ops.len() ==> has_entry_id(es, #[trigger] ops[k].entry_id)
}

pub open spec fn setting_keys_unique(st: Seq<SettingView>) -> bool {
    forall|i: int, j: int| 0 <= i < j < st.len() ==> #[trigger] st[i].key != #[trigger] st[j].key
}

/// The migration log records versions 1, 2, ... up to the current version.
pub open spec fn log_wf(s: StoreView) -> bool {
    &&& 0 <= s.version <= 5
    &&& s.log.len() == s.version
    &&& forall|i: int| 0 <= i < s.log.len() ==> #[trigger] s.log[i].version == i + 1
}

/// The store invariant. The index clause is the synchronizer's guarantee:
/// the shadow index is exactly the projection of the live entries.
pub open spec fn view_wf(s: StoreView) -> bool {
    &&& log_wf(s)
    &&& entries_sorted(s.entries)
    &&& entry_ids_unique(s.entries)
    &&& s.index == s.entries.map_values(|e: EntryView| spec_project(e))
    &&& ops_sorted(s.ai_operations)
    &&& op_ids_unique(s.ai_operations)
    &&& ops_reference_entries(s.entries, s.ai_operations)
    &&& setting_keys_unique(s.settings)
}

/// All migration steps have run.
pub open spec fn spec_migrated(s: StoreView) -> bool {
    s.version == 5
}

/// The store a fresh, not yet migrated, database presents.
pub open spec fn spec_empty_store() -> StoreView {
    StoreView {
        version: 0,
        log: Seq::empty(),
        entries: Seq::empty(),
        index: Seq::empty(),
        ai_operations: Seq::empty(),
        settings: Seq::empty(),
    }
}

// ---------------------------------------------------------------------------
// positions of keys in the store's sequences
// ---------------------------------------------------------------------------
/// Index of the first entry with the given date, or -1.
pub open spec fn spec_date_index(es: Seq<EntryView>, date: Seq<char>) -> int
    decreases es.len(),
{
    if es.len() == 0 {
        -1
    } else if es[0].entry_date == date {
        0
    } else {
        let r = spec_date_index(es.skip(1), date);
        if r == -1 {
            -1
        } else {
            1 + r
        }
    }
}

pub proof fn lemma_date_index_props(es: Seq<EntryView>, date: Seq<char>)
    ensures
        ({
            let k = spec_date_index(es, date);
            &&& -1 <= k < es.len()
            &&& k >= 0 ==> es[k].entry_date == date && (forall|i: int|
                0 <= i < k ==> (#[trigger] es[i].entry_date) != date)
            &&& k == -1 ==> !has_date(es, date)
        }),
    decreases es.len(),
{
    if es.len() > 0 {
        lemma_date_index_props(es.skip(1), date);
        assert(es.skip(1).len() == es.len() - 1);
        let r = spec_date_index(es.skip(1), date);
        if es[0].entry_date != date {
            if r >= 0 {
                assert(es.skip(1)[r] == es[1 + r]);
                assert forall|i: int| 0 <= i < 1 + r implies (#[trigger] es[i].entry_date)
                    != date by {
                    if i > 0 {
                        assert(es.skip(1)[i - 1] == es[i]);
                    }
                }
            } else {
                assert forall|i: int| 0 <= i < es.len() implies (#[trigger] es[i].entry_date)
                    != date by {
                    if i > 0 {
                        assert(es.skip(1)[i - 1] == es[i]);
                    }
                }
            }
        }
    }
}

/// Index of the first audit record with the given id, or -1.
pub open spec fn spec_op_id_index(ops: Seq<OpView>, id: Seq<char>) -> int
    decreases ops.len(),
{
    if ops.len() == 0 {
        -1
    } else if ops[0].id == id {
        0
    } else {
        let r = spec_op_id_index(ops.skip(1), id);
        if r == -1 {
            -1
        } else {
            1 + r
        }
    }
}

pub proof fn lemma_op_id_index_props(ops: Seq<OpView>, id: Seq<char>)
    ensures
        ({
            let k = spec_op_id_index(ops, id);
            &&& -1 <= k < ops.len()
            &&& k >= 0 ==> ops[k].id == id && (forall|i: int|
                0 <= i < k ==> (#[trigger] ops[i].id) != id)
            &&& k == -1 ==> forall|i: int| 0 <= i < ops.len() ==> (#[trigger] ops[i].id) != id
        }),
    decreases ops.len(),
{
    if ops.len() > 0 {
        lemma_op_id_index_props(ops.skip(1), id);
        assert(ops.skip(1).len() == ops.len() - 1);
        let r = spec_op_id_index(ops.skip(1), id);
        if ops[0].id != id {
            assert forall|i: int| 0 < i < ops.len() implies ops.skip(1)[i - 1] == ops[i] by {}
        }
    }
}

/// Index of the setting with the given key, or -1.
pub open spec fn spec_setting_index(st: Seq<SettingView>, key: Seq<char>) -> int
    decreases st.len(),
{
    if st.len() == 0 {
        -1
    } else if st[0].key == key {
        0
    } else {
        let r = spec_setting_index(st.skip(1), key);
        if r == -1 {
            -1
        } else {
            1 + r
        }
    }
}

pub proof fn lemma_setting_index_props(st: Seq<SettingView>, key: Seq<char>)
    ensures
        ({
            let k = spec_setting_index(st, key);
            &&& -1 <= k < st.len()
            &&& k >= 0 ==> st[k].key == key && (forall|i: int|
                0 <= i < k ==> (#[trigger] st[i].key) != key)
            &&& k == -1 ==> forall|i: int| 0 <= i < st.len() ==> (#[trigger] st[i].key) != key
        }),
    decreases st.len(),
{
    if st.len() > 0 {
        lemma_setting_index_props(st.skip(1), key);
        assert(st.skip(1).len() == st.len() - 1);
        if st[0].key != key {
            assert forall|i: int| 0 < i < st.len() implies st.skip(1)[i - 1] == st[i] by {}
        }
    }
}

/// Where a new entry with the given date belongs: after every smaller date.
pub open spec fn spec_insert_pos(es: Seq<EntryView>, date: Seq<char>) -> int
    decreases es.len(),
{
    if es.len() == 0 {
        0
    } else if lex_lt(es[0].entry_date, date) {
        1 + spec_insert_pos(es.skip(1), date)
    } else {
        0
    }
}

pub proof fn lemma_insert_pos_props(es: Seq<EntryView>, date: Seq<char>)
    requires
        entries_sorted(es),
    ensures
        ({
            let p = spec_insert_pos(es, date);
            &&& 0 <= p <= es.len()
            &&& forall|i: int| 0 <= i < p ==> lex_lt(#[trigger] es[i].entry_date, date)
            &&& forall|i: int| p <= i < es.len() ==> !lex_lt(#[trigger] es[i].entry_date, date)
        }),
    decreases es.len(),
{
    if es.len() > 0 {
        assert(es.skip(1).len() == es.len() - 1);
        assert(entries_sorted(es.skip(1))) by {
            assert forall|i: int, j: int| 0 <= i < j < es.skip(1).len() implies lex_lt(
                #[trigger] es.skip(1)[i].entry_date,
                #[trigger] es.skip(1)[j].entry_date,
            ) by {
                assert(es.skip(1)[i] == es[i + 1]);
                assert(es.skip(1)[j] == es[j + 1]);
            }
        }
        lemma_insert_pos_props(es.skip(1), date);
        let p = spec_insert_pos(es, date);
        if lex_lt(es[0].entry_date, date) {
            assert forall|i: int| 0 <= i < p implies lex_lt(#[trigger] es[i].entry_date, date) by {
                if i > 0 {
                    assert(es.skip(1)[i - 1] == es[i]);
                }
            }
            assert forall|i: int| p <= i < es.len() implies !lex_lt(
                #[trigger] es[i].entry_date,
                date,
            ) by {
                assert(es.skip(1)[i - 1] == es[i]);
            }
        } else {
            // the head is not below `date`; by sortedness nothing after it is either
            assert forall|i: int| 0 <= i < es.len() implies !lex_lt(
                #[trigger] es[i].entry_date,
                date,
            ) by {
                if i > 0 {
                    assert(lex_lt(es[0].entry_date, es[i].entry_date));
                    if lex_lt(es[i].entry_date, date) {
                        lemma_lex_transitive(es[0].entry_date, es[i].entry_date, date);
                    }
                }
            }
        }
    }
}

/// Where a new audit record with the given time belongs: after every record
/// of the same or an earlier time.
pub open spec fn spec_op_insert_pos(ops: Seq<OpView>, t: int) -> int
    decreases ops.len(),
{
    if ops.len() == 0 {
        0
    } else if ops[0].created_at <= t {
        1 + spec_op_insert_pos(ops.skip(1), t)
    } else {
        0
    }
}

pub proof fn lemma_op_insert_pos_props(ops: Seq<OpView>, t: int)
    requires
        ops_sorted(ops),
    ensures
        ({
            let p = spec_op_insert_pos(ops, t);
            &&& 0 <= p <= ops.len()
            &&& forall|i: int| 0 <= i < p ==> #[trigger] ops[i].created_at <= t
            &&& forall|i: int| p <= i < ops.len() ==> #[trigger] ops[i].created_at > t
        }),
    decreases ops.len(),
{
    if ops.len() > 0 {
        assert(ops.skip(1).len() == ops.len() - 1);
        assert(ops_sorted(ops.skip(1))) by {
            assert forall|i: int, j: int| 0 <= i < j < ops.skip(1).len() implies #[trigger] ops.skip(
                1,
            )[i].created_at <= #[trigger] ops.skip(1)[j].created_at by {
                assert(ops.skip(1)[i] == ops[i + 1]);
                assert(ops.skip(1)[j] == ops[j + 1]);
            }
        }
        lemma_op_insert_pos_props(ops.skip(1), t);
        let p = spec_op_insert_pos(ops, t);
        if ops[0].created_at <= t {
            assert forall|i: int| 0 <= i < p implies #[trigger] ops[i].created_at <= t by {
                if i > 0 {
                    assert(ops.skip(1)[i - 1] == ops[i]);
                }
            }
            assert forall|i: int| p <= i < ops.len() implies #[trigger] ops[i].created_at > t by {
                assert(ops.skip(1)[i - 1] == ops[i]);
            }
        } else {
            assert forall|i: int| 0 <= i < ops.len() implies #[trigger] ops[i].created_at > t by {
                if i > 0 {
                    assert(ops[0].created_at <= ops[i].created_at);
                }
            }
        }
    }
}

// ---------------------------------------------------------------------------
// entry constructors
// ---------------------------------------------------------------------------
/// A brand new entry as `upsert` inserts it.
pub open spec fn spec_new_entry(
    id: Seq<char>,
    date: Seq<char>,
    content: Seq<char>,
    mood: Option<Seq<char>>,
    mood_emoji: Option<Seq<char>>,
    now: int,
) -> EntryView {
    EntryView {
        id: id,
        entry_date: date,
        content_json: content,
        mood: mood,
        mood_emoji: mood_emoji,
        created_at: now,
        updated_at: now,
    }
}

/// An existing entry after `upsert` replaced its content.
pub open spec fn spec_content_updated(e: EntryView, content: Seq<char>, now: int) -> EntryView {
    EntryView {
        id: e.id,
        entry_date: e.entry_date,
        content_json: content,
        mood: e.mood,
        mood_emoji: e.mood_emoji,
        created_at: e.created_at,
        updated_at: now,
    }
}

/// An existing entry after its mood fields were replaced.
pub open spec fn spec_mood_updated(
    e: EntryView,
    mood: Option<Seq<char>>,
    mood_emoji: Option<Seq<char>>,
    now: int,
) -> EntryView {
    EntryView {
        id: e.id,
        entry_date: e.entry_date,
        content_json: e.content_json,
        mood: mood,
        mood_emoji: mood_emoji,
        created_at: e.created_at,
        updated_at: now,
    }
}

/// An existing entry after an overwriting import: content, mood and
/// `updated_at` come from the bundle entry, id and `created_at` stay.
pub open spec fn spec_entry_overwritten(e: EntryView, b: EntryView) -> EntryView {
    EntryView {
        id: e.id,
        entry_date: e.entry_date,
        content_json: b.content_json,
        mood: b.mood,
        mood_emoji: b.mood_emoji,
        created_at: e.created_at,
        updated_at: b.updated_at,
    }
}

// ---------------------------------------------------------------------------
// store transitions
// ---------------------------------------------------------------------------
/// The entry at position `k` replaced by `e`; the index row follows in the
/// same step.
pub open spec fn spec_replace_entry(s: StoreView, k: int, e: EntryView) -> StoreView {
    StoreView {
        entries: s.entries.update(k, e),
        index: s.index.update(k, spec_project(e)),
        ..s
    }
}

/// A new entry inserted at its sorted position; the index row follows in the
/// same step.
pub open spec fn spec_insert_entry(s: StoreView, e: EntryView) -> StoreView {
    let p = spec_insert_pos(s.entries, e.entry_date);
    StoreView {
        entries: s.entries.insert(p, e),
        index: s.index.insert(p, spec_project(e)),
        ..s
    }
}

/// A new audit record inserted at its time-sorted position.
pub open spec fn spec_insert_op(s: StoreView, o: OpView) -> StoreView {
    StoreView { ai_operations: s.ai_operations.insert(spec_op_insert_pos(s.ai_operations, o.created_at), o), ..s }
}

/// What `upsert_entry(date, content)` does, given the clock value and the
/// fresh id the insert path would use.
pub open spec fn spec_upsert_entry(
    s: StoreView,
    date: Seq<char>,
    content: Seq<char>,
    now: int,
    id: Seq<char>,
) -> (StoreView, Result<EntryView, ErrorView>) {
    if crate::dates::spec_parse_date(date) is None {
        (s, Err(ErrorView::InvalidEntryDate(date)))
    } else {
        let k = spec_date_index(s.entries, date);
        if k >= 0 {
            let e = spec_content_updated(s.entries[k], content, now);
            (spec_replace_entry(s, k, e), Ok(e))
        } else if has_entry_id(s.entries, id) {
            (s, Err(ErrorView::Database("duplicate entry id"@)))
        } else {
            let e = spec_new_entry(id, date, content, None, None, now);
            (spec_insert_entry(s, e), Ok(e))
        }
    }
}

/// What `upsert_entry_mood(date, mood, mood_emoji)` does. A fresh entry gets
/// the empty structured document as content.
pub open spec fn spec_upsert_entry_mood(
    s: StoreView,
    date: Seq<char>,
    mood: Option<Seq<char>>,
    mood_emoji: Option<Seq<char>>,
    now: int,
    id: Seq<char>,
) -> (StoreView, Result<EntryView, ErrorView>) {
    if crate::dates::spec_parse_date(date) is None {
        (s, Err(ErrorView::InvalidEntryDate(date)))
    } else {
        let k = spec_date_index(s.entries, date);
        if k >= 0 {
            let e = spec_mood_updated(s.entries[k], mood, mood_emoji, now);
            (spec_replace_entry(s, k, e), Ok(e))
        } else if has_entry_id(s.entries, id) {
            (s, Err(ErrorView::Database("duplicate entry id"@)))
        } else {
            let e = spec_new_entry(id, date, "{}"@, mood, mood_emoji, now);
            (spec_insert_entry(s, e), Ok(e))
        }
    }
}

/// The audit records that survive the cascade when the entry with the given
/// id is deleted.
pub open spec fn ops_without_entry(ops: Seq<OpView>, entry_id: Seq<char>) -> Seq<OpView>
    decreases ops.len(),
{
    if ops.len() == 0 {
        Seq::empty()
    } else {
        let rest = ops_without_entry(ops.drop_last(), entry_id);
        if ops.last().entry_id == entry_id {
            rest
        } else {
            rest.push(ops.last())
        }
    }
}

/// What the cascade keeps: only records of other entries, each one of the
/// originals, and every record of another entry stays.
pub proof fn lemma_ops_without_entry_membership(ops: Seq<OpView>, entry_id: Seq<char>)
    ensures
        ({
            let r = ops_without_entry(ops, entry_id);
            &&& r.len() <= ops.len()
            &&& forall|i: int|
                0 <= i < r.len() ==> (#[trigger] r[i]).entry_id != entry_id && ops.contains(r[i])
            &&& forall|j: int|
                0 <= j < ops.len() && (#[trigger] ops[j]).entry_id != entry_id ==> r.contains(
                    ops[j],
                )
        }),
    decreases ops.len(),
{
    let r = ops_without_entry(ops, entry_id);
    if ops.len() > 0 {
        let prefix = ops.drop_last();
        assert(prefix.len() == ops.len() - 1);
        lemma_ops_without_entry_membership(prefix, entry_id);
        let rest = ops_without_entry(prefix, entry_id);
        assert forall|i: int| 0 <= i < r.len() implies (#[trigger] r[i]).entry_id != entry_id
            && ops.contains(r[i]) by {
            if i < rest.len() {
                assert(r[i] == rest[i]);
                let j = choose|j: int| 0 <= j < prefix.len() && prefix[j] == rest[i];
                assert(ops[j] == r[i]);
            } else {
                assert(r[i] == ops[ops.len() - 1]);
            }
        }
        assert forall|j: int|
            0 <= j < ops.len() && (#[trigger] ops[j]).entry_id != entry_id implies r.contains(
            ops[j],
        ) by {
            if j == ops.len() - 1 {
                assert(r[r.len() - 1] == ops[j]);
            } else {
                assert(prefix[j] == ops[j]);
                assert(rest.contains(prefix[j]));
                let i = choose|i: int| 0 <= i < rest.len() && rest[i] == prefix[j];
                assert(r[i] == ops[j]);
            }
        }
    }
}

/// The cascade keeps the records' time order.
pub proof fn lemma_ops_without_entry_sorted(ops: Seq<OpView>, entry_id: Seq<char>)
    requires
        ops_sorted(ops),
    ensures
        ops_sorted(ops_without_entry(ops, entry_id)),
    decreases ops.len(),
{
    let r = ops_without_entry(ops, entry_id);
    if ops.len() > 0 {
        let prefix = ops.drop_last();
        assert(prefix.len() == ops.len() - 1);
        assert(ops_sorted(prefix)) by {
            assert(forall|i: int| 0 <= i < prefix.len() ==> #[trigger] prefix[i] == ops[i]);
        }
        lemma_ops_without_entry_sorted(prefix, entry_id);
        lemma_ops_without_entry_membership(prefix, entry_id);
        let rest = ops_without_entry(prefix, entry_id);
        if ops.last().entry_id != entry_id {
            assert forall|i: int, j: int| 0 <= i < j < r.len() implies (#[trigger] r[i]).created_at
                <= (#[trigger] r[j]).created_at by {
                if j < rest.len() {
                    assert(r[i] == rest[i] && r[j] == rest[j]);
                } else {
                    assert(r[j] == ops[ops.len() - 1]);
                    assert(r[i] == rest[i]);
                    let a = choose|a: int| 0 <= a < prefix.len() && prefix[a] == rest[i];
                    assert(ops[a] == r[i]);
                }
            }
        }
    }
}

/// The cascade keeps the records' ids distinct.
pub proof fn lemma_ops_without_entry_unique(ops: Seq<OpView>, entry_id: Seq<char>)
    requires
        op_ids_unique(ops),
    ensures
        op_ids_unique(ops_without_entry(ops, entry_id)),
    decreases ops.len(),
{
    let r = ops_without_entry(ops, entry_id);
    if ops.len() > 0 {
        let prefix = ops.drop_last();
        assert(prefix.len() == ops.len() - 1);
        assert(op_ids_unique(prefix)) by {
            assert(forall|i: int| 0 <= i < prefix.len() ==> #[trigger] prefix[i] == ops[i]);
        }
        lemma_ops_without_entry_unique(prefix, entry_id);
        lemma_ops_without_entry_membership(prefix, entry_id);
        let rest = ops_without_entry(prefix, entry_id);
        if ops.last().entry_id != entry_id {
            assert forall|i: int, j: int| 0 <= i < j < r.len() implies (#[trigger] r[i]).id != (
            #[trigger] r[j]).id by {
                if j < rest.len() {
                    assert(r[i] == rest[i] && r[j] == rest[j]);
                } else {
                    assert(r[j] == ops[ops.len() - 1]);
                    assert(r[i] == rest[i]);
                    let a = choose|a: int| 0 <= a < prefix.len() && prefix[a] == rest[i];
                    assert(ops[a] == r[i]);
                }
            }
        }
    }
}

/// What `delete_entry(date)` does: the entry, its index row and its audit
/// records leave together.
pub open spec fn spec_delete_entry(s: StoreView, date: Seq<char>) -> (
    StoreView,
    Result<bool, ErrorView>,
) {
    if crate::dates::spec_parse_date(date) is None {
        (s, Err(ErrorView::InvalidEntryDate(date)))
    } else {
        let k = spec_date_index(s.entries, date);
        if k < 0 {
            (s, Ok(false))
        } else {
            let victim = s.entries[k];
            (
                StoreView {
                    entries: s.entries.remove(k),
                    index: s.index.remove(k),
                    ai_operations: ops_without_entry(s.ai_operations, victim.id),
                    ..s
                },
                Ok(true),
            )
        }
    }
}

/// What `create_ai_operation` does, given the clock value and the fresh id.
pub open spec fn spec_create_ai_operation(
    s: StoreView,
    entry_id: Seq<char>,
    op_type: Seq<char>,
    original_text: Seq<char>,
    result_text: Seq<char>,
    provider: Seq<char>,
    model: Seq<char>,
    now: int,
    id: Seq<char>,
) -> (StoreView, Result<OpView, ErrorView>) {
    if !has_entry_id(s.entries, entry_id) {
        (s, Err(ErrorView::EntryNotFound(entry_id)))
    } else if spec_op_id_index(s.ai_operations, id) >= 0 {
        (s, Err(ErrorView::Database("duplicate ai operation id"@)))
    } else {
        let o = OpView {
            id: id,
            entry_id: entry_id,
            op_type: op_type,
            original_text: original_text,
            result_text: result_text,
            provider: provider,
            model: model,
            created_at: now,
        };
        (spec_insert_op(s, o), Ok(o))
    }
}

/// What `delete_ai_operations_for_entry(entry_id)` does.
pub open spec fn spec_delete_ops_for(s: StoreView, entry_id: Seq<char>) -> (StoreView, int) {
    let kept = ops_without_entry(s.ai_operations, entry_id);
    (StoreView { ai_operations: kept, ..s }, s.ai_operations.len() - kept.len())
}

/// What `save_setting(key, value)` does, given the clock value: an upsert.
pub open spec fn spec_save_setting(
    s: StoreView,
    key: Seq<char>,
    value: Seq<char>,
    now: int,
) -> StoreView {
    let k = spec_setting_index(s.settings, key);
    let row = SettingView { key: key, value: value, updated_at: now };
    if k >= 0 {
        StoreView { settings: s.settings.update(k, row), ..s }
    } else {
        StoreView { settings: s.settings.push(row), ..s }
    }
}

/// What `get_setting(key)` returns.
pub open spec fn spec_get_setting(s: StoreView, key: Seq<char>) -> Option<Seq<char>> {
    let k = spec_setting_index(s.settings, key);
    if k >= 0 {
        Some(s.settings[k].value)
    } else {
        None
    }
}

// ---------------------------------------------------------------------------
// migration
// ---------------------------------------------------------------------------
/// The log records one forward step writes.
pub open spec fn spec_migration_suffix(version: int, now: int) -> Seq<MigrationView> {
    Seq::new(
        if version < 5 {
            (5 - version) as nat
        } else {
            0
        },
        |i: int| MigrationView { version: version + 1 + i, applied_at: now },
    )
}

/// What running the full migration sequence does. Steps up to the current
/// version never run again; the step that introduces the audit table drops a
/// stale one, and the step that introduces the shadow index populates it
/// from the existing entries.
pub open spec fn spec_migrate(s: StoreView, now: int) -> StoreView {
    StoreView {
        version: 5,
        log: s.log + spec_migration_suffix(s.version, now),
        entries: s.entries,
        index: if s.version < 5 {
            s.entries.map_values(|e: EntryView| spec_project(e))
        } else {
            s.index
        },
        ai_operations: if s.version < 2 {
            Seq::empty()
        } else {
            s.ai_operations
        },
        settings: s.settings,
    }
}

// ---------------------------------------------------------------------------
// reads
// ---------------------------------------------------------------------------
/// What `get_entry(date)` returns.
pub open spec fn spec_get_entry(s: StoreView, date: Seq<char>) -> Result<
    Option<EntryView>,
    ErrorView,
> {
    if crate::dates::spec_parse_date(date) is None {
        Err(ErrorView::InvalidEntryDate(date))
    } else {
        let k = spec_date_index(s.entries, date);
        if k >= 0 {
            Ok(Some(s.entries[k]))
        } else {
            Ok(None)
        }
    }
}

/// The entries among the first `n` whose date starts with `month`, most
/// recent first.
pub open spec fn spec_month_hits_desc(es: Seq<EntryView>, month: Seq<char>, n: int) -> Seq<
    EntryView,
>
    decreases n,
{
    if n <= 0 {
        Seq::empty()
    } else {
        let rest = spec_month_hits_desc(es, month, n - 1);
        if is_prefix_of(month, es[n - 1].entry_date) {
            seq![es[n - 1]] + rest
        } else {
            rest
        }
    }
}

/// What `list_entries(month)` returns.
pub open spec fn spec_list_entries(s: StoreView, month: Seq<char>) -> Result<
    Seq<EntryView>,
    ErrorView,
> {
    if !crate::dates::spec_valid_month(month) {
        Err(ErrorView::InvalidEntryDate(month))
    } else {
        Ok(spec_month_hits_desc(s.entries, month, s.entries.len() as int))
    }
}

/// The entries among the first `n` in the month and with the given mood,
/// most recent first.
pub open spec fn spec_mood_hits_desc(
    es: Seq<EntryView>,
    month: Seq<char>,
    mood: Seq<char>,
    n: int,
) -> Seq<EntryView>
    decreases n,
{
    if n <= 0 {
        Seq::empty()
    } else {
        let rest = spec_mood_hits_desc(es, month, mood, n - 1);
        if is_prefix_of(month, es[n - 1].entry_date) && es[n - 1].mood == Some(mood) {
            seq![es[n - 1]] + rest
        } else {
            rest
        }
    }
}

/// What `list_entries_by_mood(month, mood)` returns.
pub open spec fn spec_list_entries_by_mood(s: StoreView, month: Seq<char>, mood: Seq<char>) -> Result<
    Seq<EntryView>,
    ErrorView,
> {
    if !crate::dates::spec_valid_month(month) {
        Err(ErrorView::InvalidEntryDate(month))
    } else {
        Ok(spec_mood_hits_desc(s.entries, month, mood, s.entries.len() as int))
    }
}

/// A query matches an index row when it occurs in the projected content or
/// in the projected mood text.
pub open spec fn index_row_matches(row: IndexView, q: Seq<char>) -> bool {
    contains_sub(row.content, q) || contains_sub(row.mood_text, q)
}

/// The entries among the first `n` whose index row matches `q`, most recent
/// first.
pub open spec fn spec_search_hits_desc(
    es: Seq<EntryView>,
    ix: Seq<IndexView>,
    q: Seq<char>,
    n: int,
) -> Seq<EntryView>
    decreases n,
{
    if n <= 0 {
        Seq::empty()
    } else {
        let rest = spec_search_hits_desc(es, ix, q, n - 1);
        if index_row_matches(ix[n - 1], q) {
            seq![es[n - 1]] + rest
        } else {
            rest
        }
    }
}

/// What `search_entries(query)` returns: nothing for a blank query, else the
/// index matches of the trimmed query, most recent first.
pub open spec fn spec_search_entries(s: StoreView, query: Seq<char>) -> Seq<EntryView> {
    let t = crate::text::spec_trim(query);
    if t.len() == 0 {
        Seq::empty()
    } else {
        spec_search_hits_desc(s.entries, s.index, t, s.entries.len() as int)
    }
}

/// The audit records among the first `n` that belong to the entry, newest
/// first.
pub open spec fn spec_ops_for_desc(ops: Seq<OpView>, entry_id: Seq<char>, n: int) -> Seq<OpView>
    decreases n,
{
    if n <= 0 {
        Seq::empty()
    } else {
        let rest = spec_ops_for_desc(ops, entry_id, n - 1);
        if ops[n - 1].entry_id == entry_id {
            seq![ops[n - 1]] + rest
        } else {
            rest
        }
    }
}

/// What `list_ai_operations(entry_id)` returns.
pub open spec fn spec_list_ai_operations(s: StoreView, entry_id: Seq<char>) -> Seq<OpView> {
    spec_ops_for_desc(s.ai_operations, entry_id, s.ai_operations.len() as int)
}

// ---------------------------------------------------------------------------
// import
// ---------------------------------------------------------------------------
/// Reconcile one bundle entry: insert it verbatim when its date is new (and
/// its id collides with nothing), overwrite in place when allowed, and skip
/// it silently otherwise. The second component counts it as imported.
pub open spec fn spec_import_entry_step(s: StoreView, e: EntryView, overwrite: bool) -> (
    StoreView,
    int,
) {
    let k = spec_date_index(s.entries, e.entry_date);
    if k >= 0 {
        if overwrite {
            (spec_replace_entry(s, k, spec_entry_overwritten(s.entries[k], e)), 1)
        } else {
            (s, 0)
        }
    } else if has_entry_id(s.entries, e.id) {
        (s, 0)
    } else {
        (spec_insert_entry(s, e), 1)
    }
}

pub open spec fn spec_import_entries(s: StoreView, es: Seq<EntryView>, overwrite: bool) -> (
    StoreView,
    int,
)
    decreases es.len(),
{
    if es.len() == 0 {
        (s, 0)
    } else {
        let r = spec_import_entries(s, es.drop_last(), overwrite);
        let step = spec_import_entry_step(r.0, es.last(), overwrite);
        (step.0, r.1 + step.1)
    }
}

/// Reconcile one bundle audit record: insert it when its id is new and its
/// entry exists; never touch an existing record.
pub open spec fn spec_import_op_step(s: StoreView, o: OpView) -> StoreView {
    if spec_op_id_index(s.ai_operations, o.id) >= 0 {
        s
    } else if !has_entry_id(s.entries, o.entry_id) {
        s
    } else {
        spec_insert_op(s, o)
    }
}

pub open spec fn spec_import_ops(s: StoreView, os: Seq<OpView>) -> StoreView
    decreases os.len(),
{
    if os.len() == 0 {
        s
    } else {
        spec_import_op_step(spec_import_ops(s, os.drop_last()), os.last())
    }
}

/// What `import_data(bundle, options)` does; the count reflects entries only.
pub open spec fn spec_import(
    s: StoreView,
    entries: Seq<EntryView>,
    ops: Seq<OpView>,
    overwrite: bool,
    include_ai_operations: bool,
) -> (StoreView, int) {
    let r = spec_import_entries(s, entries, overwrite);
    if include_ai_operations {
        (spec_import_ops(r.0, ops), r.1)
    } else {
        r
    }
}

/// The entries' date strings, in storage (ascending) order.
pub open spec fn spec_dates_of(s: StoreView) -> Seq<Seq<char>> {
    s.entries.map_values(|e: EntryView| e.entry_date)
}

/// A nonnegative count clamped into `i64`.
pub open spec fn spec_i64_sat(n: int) -> int {
    if n > 0x7fff_ffff_ffff_ffff {
        0x7fff_ffff_ffff_ffff
    } else {
        n
    }
}

// ---------------------------------------------------------------------------
// views of executable results
// ---------------------------------------------------------------------------
/// The mathematical image of an entry-returning result.
pub open spec fn entry_result_view(r: &Result<crate::models::DiaryEntry, crate::error::AppError>) -> Result<
    EntryView,
    ErrorView,
> {
    match r {
        Ok(e) => Ok(e@),
        Err(x) => Err(x@),
    }
}

/// The mathematical image of an audit-record-returning result.
pub open spec fn op_result_view(r: &Result<crate::models::AIOperation, crate::error::AppError>) -> Result<
    OpView,
    ErrorView,
> {
    match r {
        Ok(o) => Ok(o@),
        Err(x) => Err(x@),
    }
}

/// The mathematical image of a bool-returning result.
pub open spec fn bool_result_view(r: &Result<bool, crate::error::AppError>) -> Result<
    bool,
    ErrorView,
> {
    match r {
        Ok(b) => Ok(*b),
        Err(x) => Err(x@),
    }
}

/// The mathematical image of an optional-entry-returning result.
pub open spec fn opt_entry_result_view(
    r: &Result<Option<crate::models::DiaryEntry>, crate::error::AppError>,
) -> Result<Option<EntryView>, ErrorView> {
    match r {
        Ok(Some(e)) => Ok(Some(e@)),
        Ok(None) => Ok(None),
        Err(x) => Err(x@),
    }
}

/// The mathematical image of an entry-list-returning result.
pub open spec fn entries_result_view(
    r: &Result<Vec<crate::models::DiaryEntry>, crate::error::AppError>,
) -> Result<Seq<EntryView>, ErrorView> {
    match r {
        Ok(v) => Ok(v.deep_view()),
        Err(x) => Err(x@),
    }
}

/// The mathematical image of an audit-record-list-returning result.
pub open spec fn ops_result_view(
    r: &Result<Vec<crate::models::AIOperation>, crate::error::AppError>,
) -> Result<Seq<OpView>, ErrorView> {
    match r {
        Ok(v) => Ok(v.deep_view()),
        Err(x) => Err(x@),
    }
}

/// The mathematical image of an optional-string-returning result.
pub open spec fn opt_string_result_view(r: &Result<Option<String>, crate::error::AppError>) -> Result<
    Option<Seq<char>>,
    ErrorView,
> {
    match r {
        Ok(Some(v)) => Ok(Some(v@)),
        Ok(None) => Ok(None),
        Err(x) => Err(x@),
    }
}

// ---------------------------------------------------------------------------
// invariant preservation
// ---------------------------------------------------------------------------
/// Replacing an entry in place, id and date kept, preserves the invariant.
pub proof fn lemma_replace_entry_wf(s: StoreView, k: int, e: EntryView)
    requires
        view_wf(s),
        0 <= k < s.entries.len(),
        e.entry_date == s.entries[k].entry_date,
        e.id == s.entries[k].id,
    ensures
        view_wf(spec_replace_entry(s, k, e)),
{
    let t = spec_replace_entry(s, k, e);
    assert(t.entries.len() == s.entries.len());
    assert forall|i: int| 0 <= i < t.entries.len() implies (#[trigger] t.entries[i]).entry_date
        == s.entries[i].entry_date && t.entries[i].id == s.entries[i].id by {}
    assert(entries_sorted(t.entries));
    assert(entry_ids_unique(t.entries));
    assert(t.index =~= t.entries.map_values(|x: EntryView| spec_project(x)));
    assert forall|j: int| 0 <= j < t.ai_operations.len() implies has_entry_id(
        t.entries,
        (#[trigger] t.ai_operations[j]).entry_id,
    ) by {
        assert(has_entry_id(s.entries, s.ai_operations[j].entry_id));
        let w = choose|w: int|
            0 <= w < s.entries.len() && #[trigger] s.entries[w].id == s.ai_operations[j].entry_id;
        assert(t.entries[w].id == t.ai_operations[j].entry_id);
    }
}

/// Inserting an entry with a fresh date and a fresh id at its sorted
/// position preserves the invariant.
pub proof fn lemma_insert_entry_wf(s: StoreView, e: EntryView)
    requires
        view_wf(s),
        !has_date(s.entries, e.entry_date),
        !has_entry_id(s.entries, e.id),
    ensures
        view_wf(spec_insert_entry(s, e)),
{
    let t = spec_insert_entry(s, e);
    let p = spec_insert_pos(s.entries, e.entry_date);
    lemma_insert_pos_props(s.entries, e.entry_date);
    s.entries.insert_ensures(p, e);
    s.index.insert_ensures(p, spec_project(e));
    assert(t.entries.len() == s.entries.len() + 1);
    // position by position, the new sequence is the old one around `e`
    assert forall|i: int| 0 <= i < t.entries.len() implies #[trigger] t.entries[i] == (if i < p {
        s.entries[i]
    } else if i == p {
        e
    } else {
        s.entries[i - 1]
    }) by {
        if p <= i - 1 < s.entries.len() {
            assert(t.entries[(i - 1) + 1] == s.entries[i - 1]);
        }
    }
    assert forall|i: int| 0 <= i < s.entries.len() && i != p implies !(
    #[trigger] s.entries[i].entry_date == e.entry_date) by {}
    assert forall|i: int, j: int| 0 <= i < j < t.entries.len() implies lex_lt(
        #[trigger] t.entries[i].entry_date,
        #[trigger] t.entries[j].entry_date,
    ) by {
        if i == p {
            // e against a later old entry: not below e and not equal, so above
            let d = t.entries[j].entry_date;
            assert(d == s.entries[j - 1].entry_date);
            assert(!lex_lt(d, e.entry_date));
            assert(d != e.entry_date);
            lemma_lex_total(e.entry_date, d);
        } else if j == p {
            assert(lex_lt(t.entries[i].entry_date, e.entry_date));
        }
    }
    assert forall|i: int, j: int| 0 <= i < j < t.entries.len() implies (#[trigger] t.entries[i]).id
        != (#[trigger] t.entries[j]).id by {}
    assert(t.index =~= t.entries.map_values(|x: EntryView| spec_project(x)));
    assert forall|j: int| 0 <= j < t.ai_operations.len() implies has_entry_id(
        t.entries,
        (#[trigger] t.ai_operations[j]).entry_id,
    ) by {
        assert(has_entry_id(s.entries, s.ai_operations[j].entry_id));
        let w = choose|w: int|
            0 <= w < s.entries.len() && #[trigger] s.entries[w].id == s.ai_operations[j].entry_id;
        if w < p {
            assert(t.entries[w].id == t.ai_operations[j].entry_id);
        } else {
            assert(t.entries[w + 1].id == t.ai_operations[j].entry_id);
        }
    }
}

/// Inserting an audit record with a fresh id for a live entry at its
/// time-sorted position preserves the invariant.
pub proof fn lemma_insert_op_wf(s: StoreView, o: OpView)
    requires
        view_wf(s),
        spec_op_id_index(s.ai_operations, o.id) == -1,
        has_entry_id(s.entries, o.entry_id),
    ensures
        view_wf(spec_insert_op(s, o)),
{
    let t = spec_insert_op(s, o);
    let p = spec_op_insert_pos(s.ai_operations, o.created_at);
    lemma_op_insert_pos_props(s.ai_operations, o.created_at);
    lemma_op_id_index_props(s.ai_operations, o.id);
    s.ai_operations.insert_ensures(p, o);
    assert forall|i: int| 0 <= i < t.ai_operations.len() implies #[trigger] t.ai_operations[i] == (
    if i < p {
        s.ai_operations[i]
    } else if i == p {
        o
    } else {
        s.ai_operations[i - 1]
    }) by {
        if p <= i - 1 < s.ai_operations.len() {
            assert(t.ai_operations[(i - 1) + 1] == s.ai_operations[i - 1]);
        }
    }
    assert forall|i: int, j: int| 0 <= i < j < t.ai_operations.len() implies (
    #[trigger] t.ai_operations[i]).created_at <= (#[trigger] t.ai_operations[j]).created_at by {}
    assert forall|i: int, j: int| 0 <= i < j < t.ai_operations.len() implies (
    #[trigger] t.ai_operations[i]).id != (#[trigger] t.ai_operations[j]).id by {}
    assert forall|j: int| 0 <= j < t.ai_operations.len() implies has_entry_id(
        t.entries,
        (#[trigger] t.ai_operations[j]).entry_id,
    ) by {}
}

/// Deleting an entry deletes its index row and audit records in the same
/// step and preserves the invariant.
pub proof fn lemma_delete_entry_wf(s: StoreView, date: Seq<char>)
    requires
        view_wf(s),
    ensures
        view_wf(spec_delete_entry(s, date).0),
{
    let t = spec_delete_entry(s, date).0;
    if crate::dates::spec_parse_date(date) is Some {
        let k = spec_date_index(s.entries, date);
        lemma_date_index_props(s.entries, date);
        if k >= 0 {
            let victim = s.entries[k];
            s.entries.remove_ensures(k);
            s.index.remove_ensures(k);
            lemma_ops_without_entry_membership(s.ai_operations, victim.id);
            lemma_ops_without_entry_sorted(s.ai_operations, victim.id);
            lemma_ops_without_entry_unique(s.ai_operations, victim.id);
            assert forall|i: int| 0 <= i < t.entries.len() implies #[trigger] t.entries[i] == (if i
                < k {
                s.entries[i]
            } else {
                s.entries[i + 1]
            }) by {}
            assert(entries_sorted(t.entries));
            assert(entry_ids_unique(t.entries));
            assert(t.index =~= t.entries.map_values(|x: EntryView| spec_project(x)));
            assert forall|j: int| 0 <= j < t.ai_operations.len() implies has_entry_id(
                t.entries,
                (#[trigger] t.ai_operations[j]).entry_id,
            ) by {
                let o = t.ai_operations[j];
                assert(o.entry_id != victim.id && s.ai_operations.contains(o));
                let a = choose|a: int|
                    0 <= a < s.ai_operations.len() && #[trigger] s.ai_operations[a] == o;
                assert(has_entry_id(s.entries, o.entry_id));
                let w = choose|w: int|
                    0 <= w < s.entries.len() && #[trigger] s.entries[w].id == o.entry_id;
                // the witness cannot be the removed entry: ids are unique
                if w == k {
                    assert(false);
                } else if w < k {
                    assert(t.entries[w].id == o.entry_id);
                } else {
                    assert(t.entries[w - 1].id == o.entry_id);
                }
            }
        }
    }
}

/// Either path of an upsert preserves the invariant.
pub proof fn lemma_upsert_entry_wf(
    s: StoreView,
    date: Seq<char>,
    content: Seq<char>,
    now: int,
    id: Seq<char>,
)
    requires
        view_wf(s),
    ensures
        view_wf(spec_upsert_entry(s, date, content, now, id).0),
{
    if crate::dates::spec_parse_date(date) is Some {
        let k = spec_date_index(s.entries, date);
        lemma_date_index_props(s.entries, date);
        if k >= 0 {
            lemma_replace_entry_wf(s, k, spec_content_updated(s.entries[k], content, now));
        } else if !has_entry_id(s.entries, id) {
            lemma_insert_entry_wf(s, spec_new_entry(id, date, content, None, None, now));
        }
    }
}

/// Bulk-deleting an entry's audit records preserves the invariant.
pub proof fn lemma_delete_ops_for_wf(s: StoreView, entry_id: Seq<char>)
    requires
        view_wf(s),
    ensures
        view_wf(spec_delete_ops_for(s, entry_id).0),
{
    let t = spec_delete_ops_for(s, entry_id).0;
    lemma_ops_without_entry_membership(s.ai_operations, entry_id);
    lemma_ops_without_entry_sorted(s.ai_operations, entry_id);
    lemma_ops_without_entry_unique(s.ai_operations, entry_id);
    assert forall|j: int| 0 <= j < t.ai_operations.len() implies has_entry_id(
        t.entries,
        (#[trigger] t.ai_operations[j]).entry_id,
    ) by {
        let o = t.ai_operations[j];
        assert(s.ai_operations.contains(o));
        let a = choose|a: int| 0 <= a < s.ai_operations.len() && #[trigger] s.ai_operations[a] == o;
        assert(has_entry_id(s.entries, s.ai_operations[a].entry_id));
    }
}

/// Saving a setting keeps the keys unique and preserves the invariant.
pub proof fn lemma_save_setting_wf(s: StoreView, key: Seq<char>, value: Seq<char>, now: int)
    requires
        view_wf(s),
    ensures
        view_wf(spec_save_setting(s, key, value, now)),
{
    let t = spec_save_setting(s, key, value, now);
    let k = spec_setting_index(s.settings, key);
    lemma_setting_index_props(s.settings, key);
    if k >= 0 {
        assert forall|i: int, j: int| 0 <= i < j < t.settings.len() implies (
        #[trigger] t.settings[i]).key != (#[trigger] t.settings[j]).key by {
            assert(s.settings[i].key != s.settings[j].key);
        }
    } else {
        assert forall|i: int, j: int| 0 <= i < j < t.settings.len() implies (
        #[trigger] t.settings[i]).key != (#[trigger] t.settings[j]).key by {
            if j == t.settings.len() - 1 {
                assert(s.settings[i].key != key);
            }
        }
    }
}

} // verus!
