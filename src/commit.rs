//! What a chosen navigation does: the window-manager commands to send and the
//! navigation memory to keep.
use crate::actions::WorkspaceContext;
use crate::decimal::parse_u32;
use crate::state::{State, StateModel};
use crate::workspace::{NavError, Workspace, group_char_of, group_digit, is_valid_group};
use vstd::prelude::*;

verus! {

broadcast use vstd::std_specs::hash::group_hash_axioms;

/// A navigation decision and whether the focused container moves with it.
#[derive(Debug)]
pub struct Action {
    pub new_workspace: Option<Workspace>,
    pub move_container: bool,
}

/// What carrying out an action takes, in order: the move command, the focus
/// command, and the memory to write.
#[derive(Debug)]
pub struct CommitPlan {
    /// Command that moves the focused container, when the action asks for it.
    pub move_command: Option<String>,
    /// Command that focuses the target workspace, unless this is a dry run.
    pub focus_command: Option<String>,
    /// The updated memory, when the target differs from the current workspace.
    pub new_state: Option<State>,
    /// Whether the updated memory is written: never on a dry run.
    pub persist: bool,
}

/// The current workspace and group ids of a context, for reporting.
#[derive(Debug, Clone, Copy, PartialEq, Eq, Structural)]
pub struct Info {
    pub current_workspace_id: u32,
    pub current_group_id: u32,
}

/// The group id and workspace id of a workspace name, when both can be read.
pub open spec fn name_ids(name: Seq<char>) -> Option<(u32, u32)> {
    match group_char_of(name) {
        None => None,
        Some(c) => match group_digit(c) {
            None => None,
            Some(g) => match parse_u32(name) {
                None => None,
                Some(w) => Some((g, w)),
            },
        },
    }
}

/// The error that reading the ids of `name` stops at: the group, then its
/// digit, then the workspace number.
pub open spec fn name_error(name: Seq<char>, e: NavError) -> bool {
    match group_char_of(name) {
        None => e == NavError::GroupUndeterminable,
        Some(c) => match group_digit(c) {
            None => e == NavError::GroupIdInvalidDigit(c),
            Some(_) => e matches NavError::WorkspaceIdUnparsable(n) && n@ == name,
        },
    }
}

/// The memory after moving from workspace `cur_w` of group `cur_g` to
/// workspace `new_w` of group `new_g`; `None` when nothing moved.
pub open spec fn reconciled(
    s: StateModel,
    cur_g: u32,
    cur_w: u32,
    new_g: u32,
    new_w: u32,
    new_valid: bool,
) -> Option<StateModel> {
    if new_g == cur_g && new_w == cur_w {
        None
    } else {
        Some(
            StateModel {
                offset: s.offset.insert(new_g, new_w),
                cycle_offset: if new_g == cur_g {
                    s.cycle_offset.insert(cur_g, cur_w)
                } else {
                    s.cycle_offset
                },
                last_group: if new_valid {
                    new_g
                } else {
                    s.last_group
                },
            },
        )
    }
}

/// The model of an optional memory.
pub open spec fn state_option_model(s: Option<State>) -> Option<StateModel> {
    match s {
        Some(st) => Some(st@),
        None => None,
    }
}

/// The command that moves the focused container to workspace `name`.
pub open spec fn move_command_text(name: Seq<char>) -> Seq<char> {
    "move container to workspace "@ + name
}

/// The command that focuses workspace `name`.
pub open spec fn focus_command_text(name: Seq<char>) -> Seq<char> {
    "workspace "@ + name
}

/// True when the workspace `name` lies in a valid group.
pub open spec fn group_valid_of(name: Seq<char>) -> bool {
    name.len() > 0 && is_valid_group(name[0])
}

/// The group id and the workspace id of a workspace.
pub fn workspace_ids(w: &Workspace) -> (r: Result<(u32, u32), NavError>)
    ensures
        match name_ids(w.name@) {
            Some(p) => r == Ok::<(u32, u32), NavError>(p),
            None => r is Err && name_error(w.name@, r->Err_0),
        },
{
    let group = match w.get_group() {
        Ok(g) => g,
        Err(e) => return Err(e),
    };
    let group_id = match group.get_id() {
        Ok(id) => id,
        Err(e) => return Err(e),
    };
    let id = match w.get_id() {
        Ok(id) => id,
        Err(e) => return Err(e),
    };
    Ok((group_id, id))
}

impl Info {
    /// The ids of the current workspace and of its group.
    pub fn from_workspace(w: &Workspace) -> (r: Result<Info, NavError>)
        ensures
            match name_ids(w.name@) {
                Some((g, id)) => r == Ok::<Info, NavError>(
                    Info { current_workspace_id: id, current_group_id: g },
                ),
                None => r is Err && name_error(w.name@, r->Err_0),
            },
    {
        match workspace_ids(w) {
            Ok((g, id)) => Ok(Info { current_workspace_id: id, current_group_id: g }),
            Err(e) => Err(e),
        }
    }
}

/// The memory after a move from `current` to `target`: the target becomes the
/// last one of its group, a valid target group the last group, and a move
/// within a group records where it came from for cycling. `None` when the
/// target is the current workspace.
pub fn reconcile_state(current: &Workspace, target: &Workspace, state: &State) -> (r: Result<Option<State>, NavError>)
    ensures
        match (name_ids(current.name@), name_ids(target.name@)) {
            (Some((cg, cw)), Some((ng, nw))) => r is Ok && state_option_model(r->Ok_0) == reconciled(
                state@,
                cg,
                cw,
                ng,
                nw,
                group_valid_of(target.name@),
            ),
            (None, _) => r is Err && name_error(current.name@, r->Err_0),
            (Some(_), None) => r is Err && name_error(target.name@, r->Err_0),
        },
{
    let (current_group_id, current_workspace_id) = match workspace_ids(current) {
        Ok(p) => p,
        Err(e) => return Err(e),
    };
    let (new_group_id, new_workspace_id) = match workspace_ids(target) {
        Ok(p) => p,
        Err(e) => return Err(e),
    };
    if new_group_id == current_group_id && new_workspace_id == current_workspace_id {
        return Ok(None);
    }
    let mut new_state = state.duplicate();
    new_state.offset.insert(new_group_id, new_workspace_id);
    let new_valid = match target.get_group() {
        Ok(g) => g.is_valid(),
        Err(_) => false,
    };
    if new_valid {
        new_state.last_group = new_group_id;
    }
    if new_group_id == current_group_id {
        new_state.cycle_offset.insert(current_group_id, current_workspace_id);
    }
    Ok(Some(new_state))
}

/// The command text `prefix` followed by a workspace name.
fn command_for(prefix: &str, name: &String) -> (r: String)
    ensures
        r@ == prefix@ + name@,
{
    let mut s = String::from_str(prefix);
    s.append(name.as_str());
    s
}

/// Plans an action: no work without a target; else the move command when the
/// container moves, the focus command unless `dry_run`, and the memory that
/// `reconcile_state` gives, written unless `dry_run`.
pub fn commit_action(action: &Action, context: &WorkspaceContext, dry_run: bool) -> (r: Result<CommitPlan, NavError>)
    ensures
        match action.new_workspace {
            None => r matches Ok(p) && p.move_command is None && p.focus_command is None
                && p.new_state is None && !p.persist,
            Some(t) => match (name_ids(context.current_workspace.name@), name_ids(t.name@)) {
                (Some((cg, cw)), Some((ng, nw))) => r matches Ok(p)
                    && (if action.move_container {
                        p.move_command matches Some(m) && m@ == move_command_text(t.name@)
                    } else {
                        p.move_command is None
                    })
                    && (if dry_run {
                        p.focus_command is None
                    } else {
                        p.focus_command matches Some(f) && f@ == focus_command_text(t.name@)
                    })
                    && state_option_model(p.new_state) == reconciled(
                        context.state@,
                        cg,
                        cw,
                        ng,
                        nw,
                        group_valid_of(t.name@),
                    )
                    && p.persist == (!dry_run && p.new_state is Some),
                (None, _) => r is Err && name_error(context.current_workspace.name@, r->Err_0),
                (Some(_), None) => r is Err && name_error(t.name@, r->Err_0),
            },
        },
{
    let target = match &action.new_workspace {
        Some(t) => t,
        None => {
            return Ok(CommitPlan { move_command: None, focus_command: None, new_state: None, persist: false });
        },
    };
    let new_state = match reconcile_state(&context.current_workspace, target, &context.state) {
        Ok(s) => s,
        Err(e) => return Err(e),
    };
    let move_command = if action.move_container {
        Some(command_for("move container to workspace ", &target.name))
    } else {
        None
    };
    let focus_command = if dry_run {
        None
    } else {
        Some(command_for("workspace ", &target.name))
    };
    let persist = !dry_run && new_state.is_some();
    Ok(CommitPlan { move_command, focus_command, new_state, persist })
}

} // verus!
