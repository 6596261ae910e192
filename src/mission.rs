use vstd::prelude::*;

verus! {

/// A persisted mission row.
pub struct Mission {
    pub mission_id: i32,
    pub mission_name: String,
    pub location: String,
    pub tags: Vec<Option<String>>,
}

/// The mathematical value of a mission row.
pub struct MissionView {
    pub mission_id: int,
    pub mission_name: Seq<char>,
    pub location: Seq<char>,
    pub tags: Seq<Option<Seq<char>>>,
}

impl View for Mission {
    type V = MissionView;

    open spec fn view(&self) -> MissionView {
        MissionView {
            mission_id: self.mission_id as int,
            mission_name: self.mission_name@,
            location: self.location@,
            tags: self.tags.deep_view(),
        }
    }
}

/// The body of a create request: the tag list may be left out.
pub struct AddMission {
    pub mission_name: String,
    pub location: String,
    pub tags: Option<Vec<String>>,
}

/// The values handed to the store for one insert.
pub struct NewMission {
    pub mission_name: String,
    pub location: String,
    pub tags: Vec<String>,
}

/// The mathematical value of an insert payload.
pub struct NewMissionView {
    pub mission_name: Seq<char>,
    pub location: Seq<char>,
    pub tags: Seq<Seq<char>>,
}

impl View for NewMission {
    type V = NewMissionView;

    open spec fn view(&self) -> NewMissionView {
        NewMissionView {
            mission_name: self.mission_name@,
            location: self.location@,
            tags: self.tags.deep_view(),
        }
    }
}

/// What an absent tag list stands for: no tags.
pub open spec fn requested_tags(tags: Option<Vec<String>>) -> Seq<Seq<char>> {
    match tags {
        Some(t) => t.deep_view(),
        None => Seq::empty(),
    }
}

/// The row that the store holds after inserting `n` under the id `id`:
/// every tag slot of a fresh row is present.
pub open spec fn record_of(n: NewMissionView, id: int) -> MissionView {
    MissionView {
        mission_id: id,
        mission_name: n.mission_name,
        location: n.location,
        tags: n.tags.map_values(|t: Seq<char>| Some(t)),
    }
}

/// Turns a create request into an insert payload; a missing tag list
/// becomes an empty one.
pub fn new_mission(add: AddMission) -> (r: NewMission)
    ensures
        r.mission_name@ == add.mission_name@,
        r.location@ == add.location@,
        r.tags.deep_view() == requested_tags(add.tags),
{
    let tags = match add.tags {
        Some(t) => t,
        None => Vec::new(),
    };
    NewMission { mission_name: add.mission_name, location: add.location, tags }
}

/// Copies a list of optional tags, slot by slot.
pub fn copy_tags(tags: &Vec<Option<String>>) -> (r: Vec<Option<String>>)
    ensures
        r.deep_view() == tags.deep_view(),
{
    let mut out: Vec<Option<String>> = Vec::new();
    let mut i: usize = 0;
    while i < tags.len()
        invariant
            i <= tags.len(),
            out@.len() == i,
            forall|j: int| 0 <= j < i ==> out@[j].deep_view() == tags@[j].deep_view(),
        decreases tags.len() - i,
    {
        let slot = match &tags[i] {
            Some(t) => Some(t.clone()),
            None => None,
        };
        assert(slot.deep_view() == tags@[i as int].deep_view());
        out.push(slot);
        i = i + 1;
    }
    assert(out.deep_view() =~= tags.deep_view());
    out
}

/// Turns the tags of an insert payload into the tag slots of a row.
pub fn present_tags(tags: &Vec<String>) -> (r: Vec<Option<String>>)
    ensures
        r.deep_view() == tags.deep_view().map_values(|t: Seq<char>| Some(t)),
{
    let mut out: Vec<Option<String>> = Vec::new();
    let mut i: usize = 0;
    while i < tags.len()
        invariant
            i <= tags.len(),
            out@.len() == i,
            forall|j: int| 0 <= j < i ==> out@[j].deep_view() == Some(tags@[j]@),
        decreases tags.len() - i,
    {
        let tag = tags[i].clone();
        assert(Some(tag).deep_view() == Some(tags@[i as int].deep_view()));
        out.push(Some(tag));
        i = i + 1;
    }
    assert(out.deep_view() =~= tags.deep_view().map_values(|t: Seq<char>| Some(t)));
    out
}

impl Mission {
    /// A field-by-field copy of the row.
    pub fn copy(&self) -> (r: Mission)
        ensures
            r@ == self@,
    {
        Mission {
            mission_id: self.mission_id,
            mission_name: self.mission_name.clone(),
            location: self.location.clone(),
            tags: copy_tags(&self.tags),
        }
    }
}

} // verus!
