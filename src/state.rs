//! The navigation memory kept between runs.
use std::collections::HashMap;
use vstd::prelude::*;

verus! {

broadcast use vstd::std_specs::hash::group_hash_axioms;

/// What was last selected in each group, and the last valid group.
#[derive(Debug, Clone)]
pub struct State {
    /// Last selected workspace of each group: group id to workspace id.
    pub offset: HashMap<u32, u32>,
    /// Workspace that cycling goes back to in each group: group id to workspace id.
    pub cycle_offset: HashMap<u32, u32>,
    /// The last valid group that was used.
    pub last_group: u32,
}

/// The navigation memory as plain maps.
pub struct StateModel {
    pub offset: Map<u32, u32>,
    pub cycle_offset: Map<u32, u32>,
    pub last_group: u32,
}

impl View for State {
    type V = StateModel;

    open spec fn view(&self) -> StateModel {
        StateModel { offset: self.offset@, cycle_offset: self.cycle_offset@, last_group: self.last_group }
    }
}

/// The memory of a first run: nothing recorded, group `1` last used.
pub open spec fn initial_model() -> StateModel {
    StateModel { offset: Map::empty(), cycle_offset: Map::empty(), last_group: 1 }
}

/// The workspace that a group id and a per-group record lead to: the
/// recorded one, else the first workspace of the group.
pub open spec fn recorded_or_first(m: Map<u32, u32>, group_id: u32) -> int {
    if m.contains_key(group_id) {
        m[group_id] as int
    } else {
        group_id * 10 + 1
    }
}

/// The name of the state file inside the application's state directory.
pub open spec fn state_file_path(dir: Seq<char>) -> Seq<char> {
    if dir.len() == 0 || dir.last() == '/' {
        dir + "state.json"@
    } else {
        dir + "/state.json"@
    }
}

impl State {
    /// The memory of a first run.
    pub fn new() -> (r: State)
        ensures
            r@ == initial_model(),
    {
        State { offset: HashMap::new(), cycle_offset: HashMap::new(), last_group: 1 }
    }

    /// The copy of the memory that a commit starts from.
    pub fn duplicate(&self) -> (r: State)
        ensures
            r@ == self@,
    {
        State {
            offset: self.offset.clone(),
            cycle_offset: self.cycle_offset.clone(),
            last_group: self.last_group,
        }
    }
}

/// Looks up a group in a per-group record, falling back to the group's first
/// workspace.
pub fn lookup_or_first(m: &HashMap<u32, u32>, group_id: u32) -> (r: u32)
    requires
        group_id <= 9,
    ensures
        r == recorded_or_first(m@, group_id),
{
    match m.get(&group_id) {
        Some(id) => *id,
        None => group_id * 10 + 1,
    }
}

/// The path of the state file in the directory `app_state_dir`.
pub fn get_state_file(app_state_dir: &str) -> (r: String)
    ensures
        r@ == state_file_path(app_state_dir@),
{
    let n = app_state_dir.unicode_len();
    let mut path = String::from_str(app_state_dir);
    if n == 0 || app_state_dir.get_char(n - 1) == '/' {
        path.append("state.json");
    } else {
        path.append("/state.json");
    }
    path
}

/// The memory to start from: what was read, or that of a first run when
/// nothing could be read.
pub fn read_init_state(loaded: Option<State>) -> (r: State)
    ensures
        match loaded {
            Some(s) => r == s,
            None => r@ == initial_model(),
        },
{
    match loaded {
        Some(s) => s,
        None => State::new(),
    }
}

} // verus!
