use mission_service::handlers::{
    add_mission, delete_mission_by_id, delete_mission_by_name, get_mission_by_id,
    get_mission_by_name, get_missions, respond_add, respond_delete, respond_fetch, respond_list,
    root,
};
use mission_service::matcher::{by_id, by_name, MatchMission, MissionMatcher};
use mission_service::mission::{new_mission, AddMission, Mission, NewMission};
use mission_service::status::{Failure, Status};
use mission_service::store::MissionStore;

fn request(name: &str, location: &str, tags: Option<Vec<&str>>) -> AddMission {
    AddMission {
        mission_name: name.to_string(),
        location: location.to_string(),
        tags: tags.map(|t| t.into_iter().map(|s| s.to_string()).collect()),
    }
}

fn payload(name: &str) -> NewMission {
    NewMission { mission_name: name.to_string(), location: "Mars".to_string(), tags: vec![] }
}

fn row(id: i32, name: &str) -> Mission {
    Mission {
        mission_id: id,
        mission_name: name.to_string(),
        location: "Moon".to_string(),
        tags: vec![Some("crewed".to_string()), None],
    }
}

#[test]
fn create_then_fetch_apollo() {
    let mut store = MissionStore::new();
    let (status, id) = add_mission(&mut store, request("Apollo", "Moon", Some(vec!["crewed"])));
    assert_eq!(status, Status::Created);
    assert_eq!(status.code(), 201);
    let id = id.expect("an id");
    let m = get_mission_by_id(id, &store).expect("the mission");
    assert_eq!(m.mission_id, id);
    assert_eq!(m.mission_name, "Apollo");
    assert_eq!(m.location, "Moon");
    assert_eq!(m.tags, vec![Some("crewed".to_string())]);
}

#[test]
fn fetch_unknown_id_is_not_found() {
    let mut store = MissionStore::new();
    add_mission(&mut store, request("Apollo", "Moon", None));
    let r = get_mission_by_id(999999, &store);
    assert!(matches!(r, Err(Status::NotFound)));
    assert_eq!(Status::NotFound.code(), 404);
}

#[test]
fn delete_unknown_id_is_not_found() {
    let mut store = MissionStore::new();
    add_mission(&mut store, request("Apollo", "Moon", None));
    assert_eq!(delete_mission_by_id(42, &mut store), Err(Status::NotFound));
    assert_eq!(get_missions(&store).unwrap().len(), 1);
}

#[test]
fn delete_by_id_removes_only_that_row() {
    let mut store = MissionStore::new();
    let (_, a) = add_mission(&mut store, request("Apollo", "Moon", None));
    let (_, b) = add_mission(&mut store, request("Gemini", "Orbit", None));
    assert_eq!(delete_mission_by_id(a.unwrap(), &mut store), Ok(()));
    assert!(matches!(get_mission_by_id(a.unwrap(), &store), Err(Status::NotFound)));
    let left = get_missions(&store).unwrap();
    assert_eq!(left.len(), 1);
    assert_eq!(left[0].mission_id, b.unwrap());
}

#[test]
fn delete_by_name_removes_every_match_and_succeeds_on_none() {
    let mut store = MissionStore::new();
    add_mission(&mut store, request("Apollo", "Moon", None));
    add_mission(&mut store, request("Apollo", "Moon", None));
    add_mission(&mut store, request("Gemini", "Orbit", None));
    assert_eq!(delete_mission_by_name("Apollo".to_string(), &mut store), Ok(()));
    let left = get_missions(&store).unwrap();
    assert_eq!(left.len(), 1);
    assert_eq!(left[0].mission_name, "Gemini");
    assert_eq!(delete_mission_by_name("Apollo".to_string(), &mut store), Ok(()));
    assert_eq!(get_missions(&store).unwrap().len(), 1);
}

#[test]
fn fetch_by_name_returns_first_match() {
    let mut store = MissionStore::new();
    let (_, a) = add_mission(&mut store, request("Apollo", "Moon", None));
    add_mission(&mut store, request("Apollo", "Mars", None));
    let m = get_mission_by_name("Apollo".to_string(), &store).unwrap();
    assert_eq!(m.mission_id, a.unwrap());
    assert_eq!(m.location, "Moon");
    assert!(matches!(get_mission_by_name("Soyuz".to_string(), &store), Err(Status::NotFound)));
}

#[test]
fn list_after_inserts_holds_all_of_them() {
    let mut store = MissionStore::new();
    let mut ids = Vec::new();
    for name in ["A", "B", "C"] {
        ids.push(add_mission(&mut store, request(name, "Moon", None)).1.unwrap());
    }
    let all = get_missions(&store).unwrap();
    assert!(all.len() >= 3);
    for id in ids {
        assert!(all.iter().any(|m| m.mission_id == id));
    }
}

#[test]
fn ids_increase_and_are_not_reused() {
    let mut store = MissionStore::new();
    let a = add_mission(&mut store, request("A", "Moon", None)).1.unwrap();
    let b = add_mission(&mut store, request("B", "Moon", None)).1.unwrap();
    assert_eq!(a, 1);
    assert_eq!(b, 2);
    assert_eq!(delete_mission_by_id(b, &mut store), Ok(()));
    let c = add_mission(&mut store, request("C", "Moon", None)).1.unwrap();
    assert_eq!(c, 3);
    assert!(c > b && b > a);
}

#[test]
fn missing_tags_become_empty() {
    let n = new_mission(request("Apollo", "Moon", None));
    assert!(n.tags.is_empty());
    let n = new_mission(request("Apollo", "Moon", Some(vec!["a", "b"])));
    assert_eq!(n.tags, vec!["a".to_string(), "b".to_string()]);
    assert_eq!(n.mission_name, "Apollo");
    assert_eq!(n.location, "Moon");
}

#[test]
fn inserted_rows_have_present_tags() {
    let mut store = MissionStore::new();
    let n = NewMission {
        mission_name: "Apollo".to_string(),
        location: "Moon".to_string(),
        tags: vec!["x".to_string(), "y".to_string()],
    };
    let m = store.insert(&n).unwrap();
    assert_eq!(m.tags, vec![Some("x".to_string()), Some("y".to_string())]);
    assert_eq!(store.list()[0].tags, m.tags);
}

#[test]
fn store_lookups_and_deletes() {
    let mut store = MissionStore::new();
    store.insert(&payload("A")).unwrap();
    store.insert(&payload("B")).unwrap();
    store.insert(&payload("A")).unwrap();
    let first = store.load_first(&by_name("A"));
    assert_eq!(first.len(), 1);
    assert_eq!(first[0].mission_id, 1);
    assert!(store.load_first(&by_id(7)).is_empty());
    assert_eq!(store.delete_matching(&by_name("A")), 2);
    assert_eq!(store.delete_matching(&by_id(1)), 0);
    let left = store.list();
    assert_eq!(left.len(), 1);
    assert_eq!(left[0].mission_name, "B");
}

#[test]
fn matcher_tests_rows() {
    let m = row(5, "Apollo");
    assert!(by_id(5).matches(&m));
    assert!(!by_id(6).matches(&m));
    assert!(by_name("Apollo").matches(&m));
    assert!(!by_name("Gemini").matches(&m));
    let sel = MatchMission::ByName("Apollo".to_string());
    assert!(matches!(sel.make_expresion(), MissionMatcher::NameEquals(ref s) if s == "Apollo"));
    assert!(matches!(MatchMission::ById(3).make_expresion(), MissionMatcher::IdEquals(3)));
}

#[test]
fn copy_keeps_every_field() {
    let m = row(9, "Apollo");
    let c = m.copy();
    assert_eq!(c.mission_id, 9);
    assert_eq!(c.mission_name, "Apollo");
    assert_eq!(c.location, "Moon");
    assert_eq!(c.tags, vec![Some("crewed".to_string()), None]);
}

#[test]
fn failure_statuses() {
    assert_eq!(Failure::ClientInput.status().code(), 400);
    assert_eq!(Failure::NotFound.status().code(), 404);
    assert_eq!(Failure::StoreUnavailable.status().code(), 500);
    assert_eq!(Failure::QueryFailed.status().code(), 500);
    assert_eq!(Status::Success.code(), 200);
}

#[test]
fn respond_list_maps_outcomes() {
    let r = respond_list(Ok(vec![row(1, "A"), row(2, "B")])).unwrap();
    assert_eq!(r.len(), 2);
    assert_eq!(r[1].mission_name, "B");
    assert!(matches!(respond_list(Err(Failure::QueryFailed)), Err(Status::InternalServerError)));
}

#[test]
fn respond_fetch_maps_outcomes() {
    let r = respond_fetch(Ok(vec![row(1, "A")])).unwrap();
    assert_eq!(r.mission_id, 1);
    assert!(matches!(respond_fetch(Ok(vec![])), Err(Status::NotFound)));
    assert!(matches!(
        respond_fetch(Err(Failure::StoreUnavailable)),
        Err(Status::InternalServerError)
    ));
}

#[test]
fn respond_delete_maps_outcomes() {
    let id = MatchMission::ById(1);
    let name = MatchMission::ByName("A".to_string());
    assert_eq!(respond_delete(&id, Ok(1)), Ok(()));
    assert_eq!(respond_delete(&id, Ok(0)), Err(Status::NotFound));
    assert_eq!(respond_delete(&name, Ok(0)), Ok(()));
    assert_eq!(respond_delete(&name, Ok(3)), Ok(()));
    assert_eq!(respond_delete(&id, Err(Failure::QueryFailed)), Err(Status::InternalServerError));
}

#[test]
fn respond_add_maps_outcomes() {
    assert_eq!(respond_add(Ok(row(12, "A"))), (Status::Created, Some(12)));
    assert_eq!(respond_add(Err(Failure::QueryFailed)), (Status::InternalServerError, None));
    assert_eq!(respond_add(Err(Failure::StoreUnavailable)), (Status::InternalServerError, None));
}

#[test]
fn root_greets() {
    assert_eq!(root(), "Hello, World!");
}
