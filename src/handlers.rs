use vstd::prelude::*;
use crate::matcher::{MatchMission, MatcherView};
use crate::mission::{AddMission, Mission, NewMissionView, new_mission, requested_tags};
use crate::status::{Failure, Status};
use crate::store::{MissionStore, delete_spec, find_spec, insert_spec, views};

verus! {

/// The greeting served at the root path.
pub fn root() -> (r: &'static str)
    ensures
        r@ == "Hello, World!"@,
{
    "Hello, World!"
}

/// Answers a list request from the rows that the store returned.
pub fn respond_list(loaded: Result<Vec<Mission>, Failure>) -> (r: Result<Vec<Mission>, Status>)
    ensures
        match loaded {
            Ok(rows) => r is Ok && views(r->Ok_0@) == views(rows@),
            Err(e) => r == Err::<Vec<Mission>, Status>(e.status_spec()),
        },
{
    match loaded {
        Ok(rows) => Ok(rows),
        Err(e) => Err(e.status()),
    }
}

/// Answers a lookup from the rows of a query limited to one row: the last
/// row returned, or not found when there is none.
pub fn respond_fetch(loaded: Result<Vec<Mission>, Failure>) -> (r: Result<Mission, Status>)
    ensures
        match loaded {
            Ok(rows) => if rows@.len() == 0 {
                r == Err::<Mission, Status>(Status::NotFound)
            } else {
                r is Ok && r->Ok_0@ == rows@.last()@
            },
            Err(e) => r == Err::<Mission, Status>(e.status_spec()),
        },
{
    match loaded {
        Ok(mut rows) => match rows.pop() {
            Some(m) => Ok(m),
            None => Err(Status::NotFound),
        },
        Err(e) => Err(e.status()),
    }
}

/// Answers a delete from the number of rows it affected. A delete by id
/// that affected no row is not found; a delete by name succeeds either way.
pub fn respond_delete(predicate: &MatchMission, affected: Result<usize, Failure>) -> (r: Result<
    (),
    Status,
>)
    ensures
        match affected {
            Ok(n) => if n == 0 && predicate is ById {
                r == Err::<(), Status>(Status::NotFound)
            } else {
                r == Ok::<(), Status>(())
            },
            Err(e) => r == Err::<(), Status>(e.status_spec()),
        },
{
    match affected {
        Ok(n) => {
            if n == 0 {
                match predicate {
                    MatchMission::ById(_) => Err(Status::NotFound),
                    MatchMission::ByName(_) => Ok(()),
                }
            } else {
                Ok(())
            }
        },
        Err(e) => Err(e.status()),
    }
}

/// Answers a create request from the outcome of the insert: created with
/// the new id, or the failure's status and no id.
pub fn respond_add(inserted: Result<Mission, Failure>) -> (r: (Status, Option<i32>))
    ensures
        match inserted {
            Ok(m) => r == (Status::Created, Some(m.mission_id)),
            Err(e) => r == (e.status_spec(), None::<i32>),
        },
{
    match inserted {
        Ok(m) => (Status::Created, Some(m.mission_id)),
        Err(e) => (e.status(), None),
    }
}

/// Lists every mission of the table.
pub fn get_missions(store: &MissionStore) -> (r: Result<Vec<Mission>, Status>)
    ensures
        r is Ok,
        views(r->Ok_0@) == store@.rows,
{
    respond_list(Ok(store.list()))
}

/// Fetches the first mission that the selector names.
pub fn get_mission_by_predicate(predicate: MatchMission, store: &MissionStore) -> (r: Result<
    Mission,
    Status,
>)
    ensures
        match find_spec(store@.rows, predicate.filter()) {
            Some(m) => r is Ok && r->Ok_0@ == m,
            None => r == Err::<Mission, Status>(Status::NotFound),
        },
{
    let rows = store.load_first(&predicate.make_expresion());
    respond_fetch(Ok(rows))
}

/// Fetches the mission with the given id.
pub fn get_mission_by_id(mission_id: i32, store: &MissionStore) -> (r: Result<Mission, Status>)
    ensures
        match find_spec(store@.rows, MatcherView::IdEquals(mission_id as int)) {
            Some(m) => r is Ok && r->Ok_0@ == m,
            None => r == Err::<Mission, Status>(Status::NotFound),
        },
{
    get_mission_by_predicate(MatchMission::ById(mission_id), store)
}

/// Fetches the first mission with the given name.
pub fn get_mission_by_name(mission_name: String, store: &MissionStore) -> (r: Result<
    Mission,
    Status,
>)
    ensures
        match find_spec(store@.rows, MatcherView::NameEquals(mission_name@)) {
            Some(m) => r is Ok && r->Ok_0@ == m,
            None => r == Err::<Mission, Status>(Status::NotFound),
        },
{
    get_mission_by_predicate(MatchMission::ByName(mission_name), store)
}

/// Deletes the missions that the selector names.
pub fn delete_mission_by_predicate(predicate: MatchMission, store: &mut MissionStore) -> (r: Result<
    (),
    Status,
>)
    requires
        old(store).wf(),
    ensures
        final(store).wf(),
        final(store)@ == delete_spec(old(store)@, predicate.filter()),
        find_spec(old(store)@.rows, predicate.filter()) is None && predicate is ById
            ==> r == Err::<(), Status>(Status::NotFound),
        !(find_spec(old(store)@.rows, predicate.filter()) is None && predicate is ById)
            ==> r == Ok::<(), Status>(()),
{
    let filter = predicate.make_expresion();
    let ghost before = store@;
    let affected = store.delete_matching(&filter);
    proof {
        crate::laws::lemma_delete_count(before, filter@);
    }
    respond_delete(&predicate, Ok(affected))
}

/// Deletes the mission with the given id; not found when there is none.
pub fn delete_mission_by_id(mission_id: i32, store: &mut MissionStore) -> (r: Result<(), Status>)
    requires
        old(store).wf(),
    ensures
        final(store).wf(),
        final(store)@ == delete_spec(old(store)@, MatcherView::IdEquals(mission_id as int)),
        find_spec(old(store)@.rows, MatcherView::IdEquals(mission_id as int)) is None
            ==> r == Err::<(), Status>(Status::NotFound),
        find_spec(old(store)@.rows, MatcherView::IdEquals(mission_id as int)) is Some
            ==> r == Ok::<(), Status>(()),
{
    delete_mission_by_predicate(MatchMission::ById(mission_id), store)
}

/// Deletes every mission with the given name; it succeeds whether or not
/// one existed.
pub fn delete_mission_by_name(mission_name: String, store: &mut MissionStore) -> (r: Result<
    (),
    Status,
>)
    requires
        old(store).wf(),
    ensures
        final(store).wf(),
        final(store)@ == delete_spec(old(store)@, MatcherView::NameEquals(mission_name@)),
        r == Ok::<(), Status>(()),
{
    delete_mission_by_predicate(MatchMission::ByName(mission_name), store)
}

/// Creates a mission from a request body and answers with its new id.
pub fn add_mission(store: &mut MissionStore, add: AddMission) -> (r: (Status, Option<i32>))
    requires
        old(store).wf(),
    ensures
        final(store).wf(),
        ({
            let n = NewMissionView {
                mission_name: add.mission_name@,
                location: add.location@,
                tags: requested_tags(add.tags),
            };
            if old(store)@.next_id <= i32::MAX {
                &&& final(store)@ == insert_spec(old(store)@, n)
                &&& r == (Status::Created, Some(old(store)@.next_id as i32))
            } else {
                &&& final(store)@ == old(store)@
                &&& r == (Status::InternalServerError, None::<i32>)
            }
        }),
{
    let n = new_mission(add);
    let inserted = store.insert(&n);
    respond_add(inserted)
}

} // verus!
