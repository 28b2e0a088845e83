//! The store's laws: properties that hold across several operations,
//! stated over the transition functions of [`crate::model`] and proved once
//! and for all.

use crate::dates::spec_parse_date;
use crate::model::{
    entries_sorted, has_date, has_entry_id, index_row_matches, lemma_date_index_props,
    lemma_insert_pos_props, lemma_upsert_entry_wf, spec_content_updated, spec_date_index,
    spec_delete_entry, spec_insert_pos, spec_list_entries, spec_migrate, spec_migration_suffix,
    spec_month_hits_desc, spec_project, spec_search_entries, spec_search_hits_desc,
    spec_upsert_entry, view_wf, IndexView, MigrationView, StoreView,
};
use crate::models::EntryView;
use crate::text::{is_prefix_of, lemma_lex_asymmetric, lex_lt, spec_trim};
use vstd::prelude::*;

verus! {

/// Law: upserting the same date twice is idempotent on the entry's
/// identity. After a first upsert created or updated the entry for `date`,
/// a second upsert to the same date succeeds, keeps the entry's `id` and
/// `created_at`, and replaces only its content and `updated_at`.
pub proof fn lemma_upsert_idempotent(
    s: StoreView,
    date: Seq<char>,
    c1: Seq<char>,
    c2: Seq<char>,
    t1: int,
    t2: int,
    id1: Seq<char>,
    id2: Seq<char>,
)
    requires
        view_wf(s),
        spec_upsert_entry(s, date, c1, t1, id1).1 is Ok,
    ensures
        ({
            let s1 = spec_upsert_entry(s, date, c1, t1, id1).0;
            let e1 = spec_upsert_entry(s, date, c1, t1, id1).1->Ok_0;
            let r2 = spec_upsert_entry(s1, date, c2, t2, id2).1;
            &&& r2 is Ok
            &&& r2->Ok_0.id == e1.id
            &&& r2->Ok_0.created_at == e1.created_at
            &&& r2->Ok_0.entry_date == date
            &&& r2->Ok_0.content_json == c2
            &&& r2->Ok_0.updated_at == t2
        }),
{
    let s1 = spec_upsert_entry(s, date, c1, t1, id1).0;
    let e1 = spec_upsert_entry(s, date, c1, t1, id1).1->Ok_0;
    lemma_upsert_entry_wf(s, date, c1, t1, id1);
    lemma_date_index_props(s.entries, date);
    let k = spec_date_index(s.entries, date);
    // in either successful path, e1 sits in s1 at a known position and
    // carries the date
    let pos: int = if k >= 0 {
        k
    } else {
        spec_insert_pos(s.entries, date)
    };
    if k >= 0 {
        assert(s1.entries[pos] == e1);
        assert(e1.entry_date == date);
    } else {
        lemma_insert_pos_props(s.entries, date);
        s.entries.insert_ensures(pos, e1);
        assert(s1.entries[pos] == e1);
        assert(e1.entry_date == date);
    }
    lemma_date_index_props(s1.entries, date);
    let k2 = spec_date_index(s1.entries, date);
    if k2 == -1 {
        assert(has_date(s1.entries, date));
        assert(false);
    }
    // dates are strictly sorted in a well-formed store, so the found
    // position is the position of e1
    assert(s1.entries[k2].entry_date == date);
    if k2 != pos {
        if k2 < pos {
            assert(lex_lt(s1.entries[k2].entry_date, s1.entries[pos].entry_date));
        } else {
            assert(lex_lt(s1.entries[pos].entry_date, s1.entries[k2].entry_date));
        }
        lemma_lex_asymmetric(date, date);
        assert(false);
    }
    assert(spec_upsert_entry(s1, date, c2, t2, id2).1 == Ok::<EntryView, crate::error::ErrorView>(
        spec_content_updated(e1, c2, t2),
    ));
}

/// Law: running the full migration sequence twice gives exactly the store
/// of running it once — the second run changes nothing and is no error.
pub proof fn lemma_migrate_idempotent(s: StoreView, t1: int, t2: int)
    ensures
        spec_migrate(spec_migrate(s, t1), t2) == spec_migrate(s, t1),
{
    let s1 = spec_migrate(s, t1);
    assert(spec_migration_suffix(s1.version, t2) =~= Seq::<MigrationView>::empty());
    assert(s1.log + spec_migration_suffix(s1.version, t2) =~= s1.log);
    assert(spec_migrate(s1, t2) =~= s1);
}

/// Membership in the descending search hits: exactly the entries among the
/// first `n` whose index row matches.
proof fn lemma_search_hits_membership(
    es: Seq<EntryView>,
    ix: Seq<IndexView>,
    q: Seq<char>,
    n: int,
)
    requires
        0 <= n <= es.len(),
        ix.len() == es.len(),
    ensures
        forall|e: EntryView|
            #[trigger] spec_search_hits_desc(es, ix, q, n).contains(e) <==> (exists|i: int|
                0 <= i < n && es[i] == e && index_row_matches(#[trigger] ix[i], q)),
    decreases n,
{
    if n > 0 {
        lemma_search_hits_membership(es, ix, q, n - 1);
        let rest = spec_search_hits_desc(es, ix, q, n - 1);
        let whole = spec_search_hits_desc(es, ix, q, n);
        assert forall|e: EntryView| #[trigger] whole.contains(e) implies (exists|i: int|
            0 <= i < n && es[i] == e && index_row_matches(#[trigger] ix[i], q)) by {
            let j = choose|j: int| 0 <= j < whole.len() && whole[j] == e;
            if index_row_matches(ix[n - 1], q) {
                if j == 0 {
                    assert(es[n - 1] == e && index_row_matches(ix[n - 1], q));
                } else {
                    assert(rest[j - 1] == e);
                    assert(rest.contains(e));
                }
            } else {
                assert(rest.contains(e));
            }
        }
        assert forall|e: EntryView|
            (exists|i: int|
                0 <= i < n && es[i] == e && index_row_matches(
                    #[trigger] ix[i],
                    q,
                )) implies #[trigger] whole.contains(e) by {
            let i = choose|i: int| 0 <= i < n && es[i] == e && index_row_matches(ix[i], q);
            if i == n - 1 {
                assert(whole[0] == e);
            } else {
                assert(rest.contains(e));
                let j = choose|j: int| 0 <= j < rest.len() && rest[j] == e;
                if index_row_matches(ix[n - 1], q) {
                    assert(whole[j + 1] == e);
                } else {
                    assert(whole[j] == e);
                }
            }
        }
    }
}

/// Law: the shadow index never diverges from the entries. In a well-formed
/// store a search returns exactly the live entries whose projection matches
/// the trimmed query: an entry just inserted or updated is found by the
/// queries its content matches, and a deleted entry is returned by none.
pub proof fn lemma_search_reflects_entries(s: StoreView, q: Seq<char>)
    requires
        view_wf(s),
    ensures
        forall|e: EntryView|
            #[trigger] spec_search_entries(s, q).contains(e) <==> {
                &&& spec_trim(q).len() > 0
                &&& s.entries.contains(e)
                &&& index_row_matches(spec_project(e), spec_trim(q))
            },
{
    let t = spec_trim(q);
    if t.len() > 0 {
        lemma_search_hits_membership(s.entries, s.index, t, s.entries.len() as int);
        assert forall|e: EntryView| #[trigger] spec_search_entries(s, q).contains(e) implies {
            &&& t.len() > 0
            &&& s.entries.contains(e)
            &&& index_row_matches(spec_project(e), t)
        } by {
            let i = choose|i: int|
                0 <= i < s.entries.len() && s.entries[i] == e && index_row_matches(
                    #[trigger] s.index[i],
                    t,
                );
            assert(s.index[i] == spec_project(s.entries[i]));
        }
        assert forall|e: EntryView|
            {
                &&& t.len() > 0
                &&& s.entries.contains(e)
                &&& index_row_matches(spec_project(e), t)
            } implies #[trigger] spec_search_entries(s, q).contains(e) by {
            let i = choose|i: int| 0 <= i < s.entries.len() && s.entries[i] == e;
            assert(s.index[i] == spec_project(s.entries[i]));
            assert(index_row_matches(s.index[i], t));
        }
    }
}

/// Law: deleting an entry removes its shadow-index row and every audit
/// record bound to it, in the same step, and no entry with the date stays.
pub proof fn lemma_delete_cascades(s: StoreView, date: Seq<char>)
    requires
        view_wf(s),
        spec_parse_date(date) is Some,
        spec_date_index(s.entries, date) >= 0,
    ensures
        ({
            let victim = s.entries[spec_date_index(s.entries, date)];
            let t = spec_delete_entry(s, date).0;
            &&& forall|j: int|
                0 <= j < t.ai_operations.len() ==> (#[trigger] t.ai_operations[j]).entry_id
                    != victim.id
            &&& forall|j: int|
                0 <= j < t.index.len() ==> (#[trigger] t.index[j]).entry_id != victim.id
            &&& !has_date(t.entries, date)
        }),
{
    let k = spec_date_index(s.entries, date);
    lemma_date_index_props(s.entries, date);
    let victim = s.entries[k];
    let t = spec_delete_entry(s, date).0;
    crate::model::lemma_ops_without_entry_membership(s.ai_operations, victim.id);
    s.entries.remove_ensures(k);
    s.index.remove_ensures(k);
    assert forall|j: int| 0 <= j < t.index.len() implies (#[trigger] t.index[j]).entry_id
        != victim.id by {
        assert(s.index == s.entries.map_values(|e: EntryView| spec_project(e)));
        if j < k {
            assert(t.index[j] == s.index[j]);
            assert(s.index[j] == spec_project(s.entries[j]));
        } else {
            assert(t.index[j] == s.index[j + 1]);
            assert(s.index[j + 1] == spec_project(s.entries[j + 1]));
        }
    }
    assert forall|j: int| 0 <= j < t.entries.len() implies (#[trigger] t.entries[j]).entry_date
        != date by {
        if j < k {
            assert(t.entries[j] == s.entries[j]);
            assert(lex_lt(s.entries[j].entry_date, s.entries[k].entry_date));
            if s.entries[j].entry_date == date {
                lemma_lex_asymmetric(date, date);
            }
        } else {
            assert(t.entries[j] == s.entries[j + 1]);
            assert(lex_lt(s.entries[k].entry_date, s.entries[j + 1].entry_date));
            if s.entries[j + 1].entry_date == date {
                lemma_lex_asymmetric(date, date);
            }
        }
    }
}

/// Membership and order of the descending month listing.
proof fn lemma_month_hits_props(es: Seq<EntryView>, month: Seq<char>, n: int)
    requires
        entries_sorted(es),
        0 <= n <= es.len(),
    ensures
        ({
            let r = spec_month_hits_desc(es, month, n);
            &&& forall|j: int|
                0 <= j < r.len() ==> is_prefix_of(month, (#[trigger] r[j]).entry_date) && (
                exists|i: int| 0 <= i < n && es[i] == r[j])
            &&& forall|a: int, b: int|
                0 <= a < b < r.len() ==> lex_lt(
                    (#[trigger] r[b]).entry_date,
                    (#[trigger] r[a]).entry_date,
                )
            &&& forall|i: int|
                0 <= i < n && is_prefix_of(month, (#[trigger] es[i]).entry_date) ==> r.contains(
                    es[i],
                )
        }),
    decreases n,
{
    if n > 0 {
        lemma_month_hits_props(es, month, n - 1);
        let rest = spec_month_hits_desc(es, month, n - 1);
        let whole = spec_month_hits_desc(es, month, n);
        if is_prefix_of(month, es[n - 1].entry_date) {
            assert forall|j: int| 0 <= j < whole.len() implies is_prefix_of(
                month,
                (#[trigger] whole[j]).entry_date,
            ) && (exists|i: int| 0 <= i < n && es[i] == whole[j]) by {
                if j == 0 {
                    assert(whole[0] == es[n - 1]);
                } else {
                    assert(whole[j] == rest[j - 1]);
                }
            }
            assert forall|a: int, b: int| 0 <= a < b < whole.len() implies lex_lt(
                (#[trigger] whole[b]).entry_date,
                (#[trigger] whole[a]).entry_date,
            ) by {
                if a == 0 {
                    assert(whole[b] == rest[b - 1]);
                    let i = choose|i: int| 0 <= i < n - 1 && es[i] == rest[b - 1];
                    assert(lex_lt(es[i].entry_date, es[n - 1].entry_date));
                } else {
                    assert(whole[a] == rest[a - 1] && whole[b] == rest[b - 1]);
                }
            }
            assert forall|i: int|
                0 <= i < n && is_prefix_of(
                    month,
                    (#[trigger] es[i]).entry_date,
                ) implies whole.contains(es[i]) by {
                if i == n - 1 {
                    assert(whole[0] == es[i]);
                } else {
                    assert(rest.contains(es[i]));
                    let j = choose|j: int| 0 <= j < rest.len() && rest[j] == es[i];
                    assert(whole[j + 1] == es[i]);
                }
            }
        } else {
            assert forall|i: int|
                0 <= i < n && is_prefix_of(
                    month,
                    (#[trigger] es[i]).entry_date,
                ) implies whole.contains(es[i]) by {
                if i < n - 1 {
                    assert(rest.contains(es[i]));
                }
            }
        }
    }
}

/// Law: a month listing returns only entries whose date starts with the
/// month prefix, every such entry, and in strictly descending date order.
pub proof fn lemma_list_entries_month(s: StoreView, month: Seq<char>)
    requires
        view_wf(s),
        crate::dates::spec_valid_month(month),
    ensures
        ({
            let r = spec_list_entries(s, month)->Ok_0;
            &&& forall|j: int|
                0 <= j < r.len() ==> is_prefix_of(month, (#[trigger] r[j]).entry_date)
                    && s.entries.contains(r[j])
            &&& forall|a: int, b: int|
                0 <= a < b < r.len() ==> lex_lt(
                    (#[trigger] r[b]).entry_date,
                    (#[trigger] r[a]).entry_date,
                )
            &&& forall|i: int|
                0 <= i < s.entries.len() && is_prefix_of(
                    month,
                    (#[trigger] s.entries[i]).entry_date,
                ) ==> r.contains(s.entries[i])
        }),
{
    lemma_month_hits_props(s.entries, month, s.entries.len() as int);
    let r = spec_list_entries(s, month)->Ok_0;
    assert forall|j: int| 0 <= j < r.len() implies is_prefix_of(
        month,
        (#[trigger] r[j]).entry_date,
    ) && s.entries.contains(r[j]) by {
        let i = choose|i: int| 0 <= i < s.entries.len() && s.entries[i] == r[j];
        assert(s.entries[i] == r[j]);
    }
}

} // verus!
