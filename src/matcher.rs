use vstd::prelude::*;
use crate::mission::{Mission, MissionView};

verus! {

/// How a route names the mission it is about.
pub enum MatchMission {
    ById(i32),
    ByName(String),
}

/// A filter that scopes a query to the rows whose column equals a value.
pub enum MissionMatcher {
    IdEquals(i32),
    NameEquals(String),
}

/// The mathematical value of a filter.
pub enum MatcherView {
    IdEquals(int),
    NameEquals(Seq<char>),
}

impl MatcherView {
    /// Whether a row satisfies the filter.
    pub open spec fn accepts(self, m: MissionView) -> bool {
        match self {
            MatcherView::IdEquals(id) => m.mission_id == id,
            MatcherView::NameEquals(name) => m.mission_name == name,
        }
    }
}

impl View for MissionMatcher {
    type V = MatcherView;

    open spec fn view(&self) -> MatcherView {
        match self {
            MissionMatcher::IdEquals(id) => MatcherView::IdEquals(*id as int),
            MissionMatcher::NameEquals(name) => MatcherView::NameEquals(name@),
        }
    }
}

impl MissionMatcher {
    /// Tests one row against the filter.
    pub fn matches(&self, m: &Mission) -> (r: bool)
        ensures
            r == self@.accepts(m@),
    {
        match self {
            MissionMatcher::IdEquals(id) => m.mission_id == *id,
            MissionMatcher::NameEquals(name) => m.mission_name == *name,
        }
    }
}

/// The filter that keeps the row with the given id.
pub fn by_id(id: i32) -> (r: MissionMatcher)
    ensures
        r == MissionMatcher::IdEquals(id),
{
    MissionMatcher::IdEquals(id)
}

/// The filter that keeps the rows with the given name.
pub fn by_name(name: &str) -> (r: MissionMatcher)
    ensures
        r@ == MatcherView::NameEquals(name@),
{
    MissionMatcher::NameEquals(name.to_owned())
}

impl MatchMission {
    /// Resolves the selector into a filter; it never fails.
    pub fn make_expresion(&self) -> (r: MissionMatcher)
        ensures
            r@ == self.filter(),
    {
        match self {
            MatchMission::ById(id) => by_id(*id),
            MatchMission::ByName(name) => by_name(name.as_str()),
        }
    }

    /// The filter that the selector stands for.
    pub open spec fn filter(&self) -> MatcherView {
        match self {
            MatchMission::ById(id) => MatcherView::IdEquals(*id as int),
            MatchMission::ByName(name) => MatcherView::NameEquals(name@),
        }
    }
}

} // verus!
