use vstd::prelude::*;
use crate::matcher::MatcherView;
use crate::mission::{MissionView, NewMissionView, record_of};
use crate::store::{
    StoreView, store_wf, find_spec, is_first_match, kept, lemma_kept_rows, lemma_kept_none,
    insert_spec, delete_spec, ids_increasing,
};

verus! {

/// A delete affects a row exactly when a lookup with the same filter finds
/// one.
pub proof fn lemma_delete_count(s: StoreView, p: MatcherView)
    ensures
        (kept(s.rows, p).len() == s.rows.len()) <==> find_spec(s.rows, p) is None,
{
    if find_spec(s.rows, p) is Some {
        let i = choose|i: int| is_first_match(s.rows, p, i);
        lemma_kept_shorter(s.rows, p, i);
    } else {
        assert forall|i: int| 0 <= i < s.rows.len() implies !p.accepts(#[trigger] s.rows[i]) by {
            if p.accepts(s.rows[i]) {
                lemma_first_match_exists(s.rows, p, i);
            }
        }
        lemma_kept_none(s.rows, p);
    }
}

/// Where some row is accepted, a first accepted row exists.
pub proof fn lemma_first_match_exists(rows: Seq<MissionView>, p: MatcherView, i: int)
    requires
        0 <= i < rows.len(),
        p.accepts(rows[i]),
    ensures
        exists|k: int| is_first_match(rows, p, k),
    decreases i,
{
    if exists|j: int| 0 <= j < i && p.accepts(rows[j]) {
        let j = choose|j: int| 0 <= j < i && p.accepts(rows[j]);
        lemma_first_match_exists(rows, p, j);
    } else {
        assert(is_first_match(rows, p, i));
    }
}

/// A delete that accepts some row leaves fewer rows.
pub proof fn lemma_kept_shorter(rows: Seq<MissionView>, p: MatcherView, i: int)
    requires
        0 <= i < rows.len(),
        p.accepts(rows[i]),
    ensures
        kept(rows, p).len() < rows.len(),
    decreases rows.len(),
{
    let init = rows.drop_last();
    lemma_kept_rows(init, p);
    if !p.accepts(rows.last()) {
        assert(init[i] == rows[i]);
        lemma_kept_shorter(init, p, i);
    }
}

/// A lookup finds exactly the row that carries its id, when one does.
proof fn lemma_find_by_id_at(rows: Seq<MissionView>, k: int)
    requires
        ids_increasing(rows),
        0 <= k < rows.len(),
    ensures
        find_spec(rows, MatcherView::IdEquals(rows[k].mission_id)) == Some(rows[k]),
{
    let p = MatcherView::IdEquals(rows[k].mission_id);
    assert(is_first_match(rows, p, k));
    assert forall|j: int| is_first_match(rows, p, j) implies j == k by {
        if j < k {
            assert(rows[j].mission_id < rows[k].mission_id);
        } else if j > k {
            assert(!p.accepts(rows[k]));
        }
    }
}

/// Inserting a mission and then fetching it by the id it was given yields
/// the inserted name, location and tags, with the id filled in.
pub proof fn lemma_insert_then_fetch(s: StoreView, n: NewMissionView)
    requires
        store_wf(s),
        s.next_id <= i32::MAX,
    ensures
        find_spec(insert_spec(s, n).rows, MatcherView::IdEquals(s.next_id)) == Some(
            record_of(n, s.next_id),
        ),
        record_of(n, s.next_id).mission_id == s.next_id,
        record_of(n, s.next_id).mission_name == n.mission_name,
        record_of(n, s.next_id).location == n.location,
        record_of(n, s.next_id).tags == n.tags.map_values(|t: Seq<char>| Some(t)),
{
    let rows = insert_spec(s, n).rows;
    assert forall|i: int, j: int| 0 <= i < j < rows.len() implies rows[i].mission_id < rows[j].mission_id by {
        if j == s.rows.len() {
            assert(s.assigned.contains(s.rows[i].mission_id));
        }
    }
    lemma_find_by_id_at(rows, s.rows.len() as int);
}

/// Fetching an id that no row carries finds nothing.
pub proof fn lemma_fetch_absent(s: StoreView, id: int)
    requires
        forall|i: int| 0 <= i < s.rows.len() ==> #[trigger] s.rows[i].mission_id != id,
    ensures
        find_spec(s.rows, MatcherView::IdEquals(id)) is None,
{
}

/// Deleting by the id of a row removes exactly that row, and a later fetch
/// by that id finds nothing.
pub proof fn lemma_delete_by_id(s: StoreView, k: int)
    requires
        store_wf(s),
        0 <= k < s.rows.len(),
    ensures
        delete_spec(s, MatcherView::IdEquals(s.rows[k].mission_id)).rows == s.rows.remove(k),
        find_spec(
            delete_spec(s, MatcherView::IdEquals(s.rows[k].mission_id)).rows,
            MatcherView::IdEquals(s.rows[k].mission_id),
        ) is None,
{
    let id = s.rows[k].mission_id;
    lemma_kept_remove(s.rows, k);
    let rest = s.rows.remove(k);
    assert forall|i: int| 0 <= i < rest.len() implies #[trigger] rest[i].mission_id != id by {
        if i < k {
            assert(rest[i] == s.rows[i]);
        } else {
            assert(rest[i] == s.rows[i + 1]);
        }
    }
    lemma_fetch_absent(delete_spec(s, MatcherView::IdEquals(id)), id);
}

/// With increasing ids, a delete by the id of row `k` leaves the other rows.
proof fn lemma_kept_remove(rows: Seq<MissionView>, k: int)
    requires
        ids_increasing(rows),
        0 <= k < rows.len(),
    ensures
        kept(rows, MatcherView::IdEquals(rows[k].mission_id)) == rows.remove(k),
    decreases rows.len(),
{
    let p = MatcherView::IdEquals(rows[k].mission_id);
    let init = rows.drop_last();
    if k == rows.len() - 1 {
        assert forall|i: int| 0 <= i < init.len() implies !p.accepts(#[trigger] init[i]) by {
            assert(init[i] == rows[i]);
        }
        lemma_kept_none(init, p);
        assert(init =~= rows.remove(k));
    } else {
        assert(init[k] == rows[k]);
        lemma_kept_remove(init, k);
        assert(!p.accepts(rows.last()));
        assert(init.remove(k).push(rows.last()) =~= rows.remove(k));
    }
}

/// The table after inserting the payloads of `ns` one after the other.
pub open spec fn insert_all(s: StoreView, ns: Seq<NewMissionView>) -> StoreView
    decreases ns.len(),
{
    if ns.len() == 0 {
        s
    } else {
        insert_spec(insert_all(s, ns.drop_last()), ns.last())
    }
}

/// After inserting N missions the table lists at least N rows, among them
/// every one just inserted.
pub proof fn lemma_list_after_inserts(s: StoreView, ns: Seq<NewMissionView>)
    requires
        store_wf(s),
        s.next_id + ns.len() <= i32::MAX + 1,
    ensures
        insert_all(s, ns).rows.len() >= ns.len(),
        forall|k: int| 0 <= k < ns.len() ==> insert_all(s, ns).rows.contains(
            #[trigger] record_of(ns[k], s.next_id + k),
        ),
{
    lemma_insert_all_rows(s, ns);
    let rows = insert_all(s, ns).rows;
    assert forall|k: int| 0 <= k < ns.len() implies rows.contains(
        #[trigger] record_of(ns[k], s.next_id + k),
    ) by {
        assert(rows[s.rows.len() + k] == record_of(ns[k], s.next_id + k));
    }
}

proof fn lemma_insert_all_rows(s: StoreView, ns: Seq<NewMissionView>)
    ensures
        insert_all(s, ns).rows == s.rows + Seq::new(
            ns.len(),
            |k: int| record_of(ns[k], s.next_id + k),
        ),
        insert_all(s, ns).next_id == s.next_id + ns.len(),
    decreases ns.len(),
{
    if ns.len() > 0 {
        lemma_insert_all_rows(s, ns.drop_last());
        assert(insert_all(s, ns).rows =~= s.rows + Seq::new(
            ns.len(),
            |k: int| record_of(ns[k], s.next_id + k),
        ));
    } else {
        assert(s.rows + Seq::new(ns.len(), |k: int| record_of(ns[k], s.next_id + k)) =~= s.rows);
    }
}

/// The id that an insert assigns is greater than every id assigned before
/// in the table's lifetime, deleted rows included; the table stays well
/// formed, and a delete forgets no assigned id.
pub proof fn lemma_insert_id_exceeds_assigned(s: StoreView, n: NewMissionView, p: MatcherView)
    requires
        store_wf(s),
        s.next_id <= i32::MAX,
    ensures
        forall|a: int| s.assigned.contains(a) ==> a < insert_spec(s, n).rows.last().mission_id,
        insert_spec(s, n).assigned.contains(insert_spec(s, n).rows.last().mission_id),
        store_wf(insert_spec(s, n)),
        store_wf(delete_spec(s, p)),
        delete_spec(s, p).assigned == s.assigned,
        delete_spec(s, p).next_id == s.next_id,
{
    let t = insert_spec(s, n);
    assert forall|i: int, j: int| 0 <= i < j < t.rows.len() implies t.rows[i].mission_id < t.rows[j].mission_id by {
        if j == s.rows.len() {
            assert(s.assigned.contains(s.rows[i].mission_id));
        }
    }
    assert forall|i: int| 0 <= i < t.rows.len() implies t.assigned.contains(#[trigger] t.rows[i].mission_id) by {
        if i < s.rows.len() {
            assert(t.rows[i] == s.rows[i]);
        }
    }
    let d = delete_spec(s, p);
    lemma_kept_rows(s.rows, p);
    assert forall|i: int| 0 <= i < d.rows.len() implies d.assigned.contains(#[trigger] d.rows[i].mission_id) by {
        assert(d.rows.contains(d.rows[i]));
        let j = choose|j: int| 0 <= j < s.rows.len() && s.rows[j] == d.rows[i];
        assert(s.assigned.contains(s.rows[j].mission_id));
    }
}

} // verus!
