use vstd::prelude::*;
use crate::matcher::{MatcherView, MissionMatcher};
use crate::mission::{Mission, MissionView, NewMission, NewMissionView, present_tags, record_of};
use crate::status::Failure;

verus! {

/// The mathematical value of a mission table.
pub struct StoreView {
    /// The rows, in the order in which they were inserted.
    pub rows: Seq<MissionView>,
    /// The id that the next insert assigns.
    pub next_id: int,
    /// Every id assigned so far, including those of deleted rows.
    pub assigned: Set<int>,
}

/// The values of a sequence of rows.
pub open spec fn views(v: Seq<Mission>) -> Seq<MissionView> {
    v.map_values(|m: Mission| m@)
}

/// Ids grow along the rows, so no two rows share one.
pub open spec fn ids_increasing(rows: Seq<MissionView>) -> bool {
    forall|i: int, j: int| 0 <= i < j < rows.len() ==> rows[i].mission_id < rows[j].mission_id
}

/// A table whose ids are unique and never reused.
pub open spec fn store_wf(s: StoreView) -> bool {
    &&& 1 <= s.next_id <= i32::MAX + 1
    &&& ids_increasing(s.rows)
    &&& forall|i: int| 0 <= i < s.rows.len() ==> s.assigned.contains(#[trigger] s.rows[i].mission_id)
    &&& forall|a: int| s.assigned.contains(a) ==> 1 <= a < s.next_id
}

/// Row `i` is the first row that the filter accepts.
pub open spec fn is_first_match(rows: Seq<MissionView>, p: MatcherView, i: int) -> bool {
    &&& 0 <= i < rows.len()
    &&& p.accepts(rows[i])
    &&& forall|j: int| 0 <= j < i ==> !p.accepts(#[trigger] rows[j])
}

/// The row that a filtered lookup limited to one row yields, if any.
pub open spec fn find_spec(rows: Seq<MissionView>, p: MatcherView) -> Option<MissionView> {
    if exists|i: int| is_first_match(rows, p, i) {
        Some(rows[choose|i: int| is_first_match(rows, p, i)])
    } else {
        None
    }
}

/// The rows that a filtered delete leaves, in their order.
pub open spec fn kept(rows: Seq<MissionView>, p: MatcherView) -> Seq<MissionView>
    decreases rows.len(),
{
    if rows.len() == 0 {
        rows
    } else if p.accepts(rows.last()) {
        kept(rows.drop_last(), p)
    } else {
        kept(rows.drop_last(), p).push(rows.last())
    }
}

/// The table after a successful insert of `n`.
pub open spec fn insert_spec(s: StoreView, n: NewMissionView) -> StoreView {
    StoreView {
        rows: s.rows.push(record_of(n, s.next_id)),
        next_id: s.next_id + 1,
        assigned: s.assigned.insert(s.next_id),
    }
}

/// The table after deleting the rows that `p` accepts.
pub open spec fn delete_spec(s: StoreView, p: MatcherView) -> StoreView {
    StoreView { rows: kept(s.rows, p), next_id: s.next_id, assigned: s.assigned }
}

/// What a delete leaves: rows of the table that the filter rejects, in
/// increasing id order where the table was.
pub proof fn lemma_kept_rows(rows: Seq<MissionView>, p: MatcherView)
    ensures
        forall|x: MissionView| #[trigger] kept(rows, p).contains(x) ==> rows.contains(x) && !p.accepts(x),
        forall|x: MissionView| rows.contains(x) && !p.accepts(x) ==> #[trigger] kept(rows, p).contains(x),
        kept(rows, p).len() <= rows.len(),
        ids_increasing(rows) ==> ids_increasing(kept(rows, p)),
    decreases rows.len(),
{
    if rows.len() > 0 {
        let init = rows.drop_last();
        lemma_kept_rows(init, p);
        let k = kept(init, p);
        assert forall|x: MissionView| #[trigger] kept(rows, p).contains(x) implies rows.contains(x) && !p.accepts(x) by {
            if k.contains(x) {
                let i = choose|i: int| 0 <= i < init.len() && init[i] == x;
                assert(rows[i] == x);
            } else {
                assert(rows[rows.len() - 1] == x);
            }
        }
        assert forall|x: MissionView| rows.contains(x) && !p.accepts(x) implies #[trigger] kept(rows, p).contains(x) by {
            let i = choose|i: int| 0 <= i < rows.len() && rows[i] == x;
            if i < rows.len() - 1 {
                assert(init[i] == x);
                assert(k.contains(x));
                if !p.accepts(rows.last()) {
                    let j = choose|j: int| 0 <= j < k.len() && k[j] == x;
                    assert(kept(rows, p)[j] == x);
                }
            } else {
                assert(kept(rows, p)[k.len() as int] == x);
            }
        }
        if ids_increasing(rows) && !p.accepts(rows.last()) {
            assert forall|i: int, j: int| 0 <= i < j < kept(rows, p).len() implies
                kept(rows, p)[i].mission_id < kept(rows, p)[j].mission_id by {
                if j == k.len() {
                    assert(k.contains(k[i]));
                    let m = choose|m: int| 0 <= m < init.len() && init[m] == k[i];
                    assert(rows[m] == k[i]);
                }
            }
        }
    }
}

/// A delete whose filter accepts no row leaves the rows as they are.
pub proof fn lemma_kept_none(rows: Seq<MissionView>, p: MatcherView)
    requires
        forall|i: int| 0 <= i < rows.len() ==> !p.accepts(#[trigger] rows[i]),
    ensures
        kept(rows, p) == rows,
    decreases rows.len(),
{
    if rows.len() > 0 {
        let init = rows.drop_last();
        assert forall|i: int| 0 <= i < init.len() implies !p.accepts(#[trigger] init[i]) by {
            assert(init[i] == rows[i]);
        }
        lemma_kept_none(init, p);
        assert(rows.drop_last().push(rows.last()) =~= rows);
    }
}

/// An in-memory mission table with the store's semantics: ids are assigned
/// in increasing order and never reused.
pub struct MissionStore {
    rows: Vec<Mission>,
    next_id: i64,
    assigned: Ghost<Set<int>>,
}

impl View for MissionStore {
    type V = StoreView;

    closed spec fn view(&self) -> StoreView {
        StoreView { rows: views(self.rows@), next_id: self.next_id as int, assigned: self.assigned@ }
    }
}

impl MissionStore {
    /// The table's ids are unique, assigned in order and never reused.
    pub open spec fn wf(&self) -> bool {
        store_wf(self@)
    }

    /// An empty table whose first insert gets id 1.
    pub fn new() -> (r: MissionStore)
        ensures
            r.wf(),
            r@.rows == Seq::<MissionView>::empty(),
            r@.next_id == 1,
            r@.assigned == Set::<int>::empty(),
    {
        let r = MissionStore { rows: Vec::new(), next_id: 1, assigned: Ghost(Set::empty()) };
        assert(views(r.rows@) =~= Seq::<MissionView>::empty());
        r
    }

    /// Every row, in store order.
    pub fn list(&self) -> (r: Vec<Mission>)
        ensures
            views(r@) == self@.rows,
    {
        let mut out: Vec<Mission> = Vec::new();
        let mut i: usize = 0;
        while i < self.rows.len()
            invariant
                i <= self.rows.len(),
                views(out@) =~= views(self.rows@).take(i as int),
            decreases self.rows.len() - i,
        {
            let c = self.rows[i].copy();
            proof {
                assert(views(out@.push(c)) =~= views(out@).push(c@));
                assert(views(self.rows@).take(i as int + 1) =~= views(self.rows@).take(i as int).push(
                    self.rows@[i as int]@,
                ));
            }
            out.push(c);
            i = i + 1;
        }
        proof {
            assert(views(self.rows@).take(self.rows@.len() as int) =~= views(self.rows@));
        }
        out
    }

    /// The rows of a filtered lookup limited to one row: the first row that
    /// `p` accepts, or none.
    pub fn load_first(&self, p: &MissionMatcher) -> (r: Vec<Mission>)
        ensures
            r@.len() <= 1,
            find_spec(self@.rows, p@) is None <==> r@.len() == 0,
            r@.len() == 1 ==> find_spec(self@.rows, p@) == Some(r@[0]@),
    {
        let mut i: usize = 0;
        while i < self.rows.len()
            invariant
                i <= self.rows.len(),
                forall|j: int| 0 <= j < i ==> !p@.accepts(#[trigger] views(self.rows@)[j]),
            decreases self.rows.len() - i,
        {
            if p.matches(&self.rows[i]) {
                let ghost rows = views(self.rows@);
                assert(is_first_match(rows, p@, i as int));
                assert forall|k: int| is_first_match(rows, p@, k) implies k == i by {
                    if k < i {
                        assert(!p@.accepts(rows[k]));
                    } else if k > i {
                        assert(!p@.accepts(rows[i as int]));
                    }
                }
                let mut out: Vec<Mission> = Vec::new();
                out.push(self.rows[i].copy());
                return out;
            }
            i = i + 1;
        }
        Vec::new()
    }

    /// Inserts a row under the next id. It fails, and the table stays as it
    /// is, once every id of the column's range has been assigned.
    pub fn insert(&mut self, n: &NewMission) -> (r: Result<Mission, Failure>)
        requires
            old(self).wf(),
        ensures
            final(self).wf(),
            old(self)@.next_id <= i32::MAX ==> r is Ok && final(self)@ == insert_spec(old(self)@, n@),
            old(self)@.next_id > i32::MAX ==> r == Err::<Mission, Failure>(Failure::QueryFailed)
                && final(self)@ == old(self)@,
            r is Ok ==> r->Ok_0@ == record_of(n@, old(self)@.next_id),
            r is Ok ==> forall|a: int| old(self)@.assigned.contains(a) ==> a < r->Ok_0.mission_id,
    {
        if self.next_id > i32::MAX as i64 {
            return Err(Failure::QueryFailed);
        }
        let id = self.next_id as i32;
        let m = Mission {
            mission_id: id,
            mission_name: n.mission_name.clone(),
            location: n.location.clone(),
            tags: present_tags(&n.tags),
        };
        let ghost before = self@;
        self.rows.push(m.copy());
        self.next_id = self.next_id + 1;
        self.assigned = Ghost(self.assigned@.insert(id as int));
        proof {
            assert(views(self.rows@) =~= before.rows.push(m@));
            assert(m@ == record_of(n@, before.next_id));
            assert(self@ == insert_spec(before, n@));
            let rows = self@.rows;
            assert forall|i: int| 0 <= i < rows.len() implies self@.assigned.contains(#[trigger] rows[i].mission_id) by {
                if i < before.rows.len() {
                    assert(rows[i] == before.rows[i]);
                }
            }
        }
        Ok(m)
    }

    /// Deletes every row that `p` accepts and returns how many went.
    pub fn delete_matching(&mut self, p: &MissionMatcher) -> (r: usize)
        requires
            old(self).wf(),
        ensures
            final(self).wf(),
            final(self)@ == delete_spec(old(self)@, p@),
            r == old(self)@.rows.len() - final(self)@.rows.len(),
    {
        let ghost rows = views(self.rows@);
        let mut out: Vec<Mission> = Vec::new();
        let mut i: usize = 0;
        while i < self.rows.len()
            invariant
                i <= self.rows.len(),
                rows == views(self.rows@),
                views(out@) == kept(rows.take(i as int), p@),
                out@.len() <= i,
            decreases self.rows.len() - i,
        {
            proof {
                assert(rows.take(i as int + 1).drop_last() =~= rows.take(i as int));
                lemma_kept_rows(rows.take(i as int), p@);
            }
            if !p.matches(&self.rows[i]) {
                let c = self.rows[i].copy();
                proof {
                    assert(views(out@.push(c)) =~= views(out@).push(c@));
                }
                out.push(c);
            }
            i = i + 1;
        }
        proof {
            assert(rows.take(rows.len() as int) =~= rows);
            lemma_kept_rows(rows, p@);
        }
        let removed = self.rows.len() - out.len();
        self.rows = out;
        proof {
            let s = self@;
            assert(s.rows == kept(rows, p@));
            assert(ids_increasing(rows));
            assert(ids_increasing(s.rows));
            assert forall|k: int| 0 <= k < s.rows.len() implies s.assigned.contains(#[trigger] s.rows[k].mission_id) by {
                assert(kept(rows, p@).contains(s.rows[k]));
                let j = choose|j: int| 0 <= j < rows.len() && rows[j] == s.rows[k];
                assert(s.assigned.contains(rows[j].mission_id));
            }
        }
        removed
    }
}

} // verus!
