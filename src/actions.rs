//! The four navigation decisions: each takes the current workspaces and the
//! navigation memory and names the workspace to go to, if any.
use crate::decimal::{decimal, u32_to_string};
use crate::state::{State, recorded_or_first, lookup_or_first};
use crate::workspace::{
    NavError, Workspace, WorkspaceGroup, WorkspaceModel, group_char_of, group_char_of_id,
    group_digit, is_valid_group, toggled,
};
use vstd::prelude::*;

verus! {

/// Direction to move in within a group.
#[derive(Debug, Clone, Copy, PartialEq, Eq, Structural)]
pub enum Direction {
    Next,
    Prev,
}

/// The workspaces as they stand, the focused one, and the navigation memory.
#[derive(Debug)]
pub struct WorkspaceContext {
    pub current_workspace: Workspace,
    pub workspaces: Vec<Workspace>,
    pub state: State,
}

/// The models of a list of workspaces.
pub open spec fn models(ws: Seq<Workspace>) -> Seq<WorkspaceModel> {
    ws.map_values(|w: Workspace| w@)
}

/// The model of a decision's outcome.
pub open spec fn outcome_model(r: Result<Option<Workspace>, NavError>) -> Result<Option<WorkspaceModel>, NavError> {
    match r {
        Ok(Some(w)) => Ok(Some(w@)),
        Ok(None) => Ok(None),
        Err(e) => Err(e),
    }
}

/// True when a workspace belongs to the group with character `c`.
pub open spec fn in_group(w: WorkspaceModel, c: char) -> bool {
    group_char_of(w.name) == Some(c)
}

/// The workspaces of group `c`, in the order of `ws`.
pub open spec fn group_members(ws: Seq<WorkspaceModel>, c: char) -> Seq<WorkspaceModel>
    decreases ws.len(),
{
    if ws.len() == 0 {
        Seq::empty()
    } else if in_group(ws.last(), c) {
        group_members(ws.drop_last(), c).push(ws.last())
    } else {
        group_members(ws.drop_last(), c)
    }
}

/// The order in which a switch in direction `dir` scans a group.
pub open spec fn scan_order(m: Seq<WorkspaceModel>, dir: Direction) -> Seq<WorkspaceModel> {
    match dir {
        Direction::Next => m,
        Direction::Prev => m.reverse(),
    }
}

/// The workspace right after the first focused one, if there is one.
pub open spec fn after_focused(s: Seq<WorkspaceModel>) -> Option<WorkspaceModel>
    decreases s.len(),
{
    if s.len() == 0 {
        None
    } else if s[0].focused {
        if s.len() > 1 {
            Some(s[1])
        } else {
            None
        }
    } else {
        after_focused(s.drop_first())
    }
}

/// A focused workspace named by the id `id`.
pub open spec fn focused_on(id: int) -> WorkspaceModel {
    WorkspaceModel { name: decimal(id as nat), focused: true }
}

/// What `switch_workspace` decides.
pub open spec fn switch_outcome(ctx: &WorkspaceContext, dir: Direction) -> Result<Option<WorkspaceModel>, NavError> {
    match group_char_of(ctx.current_workspace.name@) {
        None => Err(NavError::GroupUndeterminable),
        Some(c) => Ok(after_focused(scan_order(group_members(models(ctx.workspaces@), c), dir))),
    }
}

/// The group that `group_toggle` goes to from group `c`.
pub open spec fn toggle_group_target(c: char, last_group: u32) -> char {
    if is_valid_group(c) {
        toggled(c)
    } else {
        group_char_of_id(last_group)
    }
}

/// What `group_toggle` decides.
pub open spec fn toggle_outcome(ctx: &WorkspaceContext) -> Result<Option<WorkspaceModel>, NavError> {
    match group_char_of(ctx.current_workspace.name@) {
        None => Err(NavError::GroupUndeterminable),
        Some(c) => {
            let t = toggle_group_target(c, ctx.state.last_group);
            match group_digit(t) {
                None => Err(NavError::GroupIdInvalidDigit(t)),
                Some(g) => Ok(Some(focused_on(recorded_or_first(ctx.state.offset@, g)))),
            }
        },
    }
}

/// The workspace id that `goto_workspace_offset` aims at from the group `c`
/// whose id is `g`.
pub open spec fn offset_target(c: char, g: u32, last_group: u32, offset: u32) -> int {
    if is_valid_group(c) {
        g * 10 + offset
    } else {
        last_group * 10 + offset
    }
}

/// The id that `goto_workspace_offset` aims at fits in a `u32`.
pub open spec fn offset_target_fits(ctx: &WorkspaceContext, offset: u32) -> bool {
    match group_char_of(ctx.current_workspace.name@) {
        Some(c) => match group_digit(c) {
            Some(g) => offset_target(c, g, ctx.state.last_group, offset) <= u32::MAX,
            None => true,
        },
        None => true,
    }
}

/// What `goto_workspace_offset` decides.
pub open spec fn goto_outcome(ctx: &WorkspaceContext, offset: u32) -> Result<Option<WorkspaceModel>, NavError> {
    match group_char_of(ctx.current_workspace.name@) {
        None => Err(NavError::GroupUndeterminable),
        Some(c) => match group_digit(c) {
            None => Err(NavError::GroupIdInvalidDigit(c)),
            Some(g) => Ok(Some(focused_on(offset_target(c, g, ctx.state.last_group, offset)))),
        },
    }
}

/// What `cycle` decides.
pub open spec fn cycle_outcome(ctx: &WorkspaceContext) -> Result<Option<WorkspaceModel>, NavError> {
    match group_char_of(ctx.current_workspace.name@) {
        None => Err(NavError::GroupUndeterminable),
        Some(c) => match group_digit(c) {
            None => Err(NavError::GroupIdInvalidDigit(c)),
            Some(g) => if is_valid_group(c) {
                Ok(Some(focused_on(recorded_or_first(ctx.state.cycle_offset@, g))))
            } else {
                toggle_outcome(ctx)
            },
        },
    }
}

/// Every member of group `c` is in group `c`.
pub proof fn lemma_members_in_group(ws: Seq<WorkspaceModel>, c: char)
    ensures
        forall|j: int| 0 <= j < group_members(ws, c).len() ==> in_group(#[trigger] group_members(ws, c)[j], c),
    decreases ws.len(),
{
    if ws.len() > 0 {
        let p = group_members(ws.drop_last(), c);
        lemma_members_in_group(ws.drop_last(), c);
        if in_group(ws.last(), c) {
            assert forall|j: int| 0 <= j < p.len() + 1 implies in_group(#[trigger] p.push(ws.last())[j], c) by {
                if j < p.len() {
                    assert(p.push(ws.last())[j] == p[j]);
                }
            }
        }
    }
}

pub(crate) proof fn lemma_after_focused_at(s: Seq<WorkspaceModel>, k: int)
    requires
        0 <= k < s.len(),
        s[k].focused,
        forall|j: int| 0 <= j < k ==> !(#[trigger] s[j]).focused,
    ensures
        after_focused(s) == if k + 1 < s.len() {
            Some(s[k + 1])
        } else {
            None::<WorkspaceModel>
        },
    decreases k,
{
    if k > 0 {
        assert(!s[0].focused);
        let t = s.drop_first();
        assert forall|j: int| 0 <= j < k - 1 implies !(#[trigger] t[j]).focused by {
            assert(t[j] == s[j + 1]);
        }
        lemma_after_focused_at(t, k - 1);
    }
}

proof fn lemma_after_focused_none(s: Seq<WorkspaceModel>)
    requires
        forall|j: int| 0 <= j < s.len() ==> !(#[trigger] s[j]).focused,
    ensures
        after_focused(s) is None,
    decreases s.len(),
{
    if s.len() > 0 {
        let t = s.drop_first();
        assert forall|j: int| 0 <= j < t.len() implies !(#[trigger] t[j]).focused by {
            assert(t[j] == s[j + 1]);
        }
        lemma_after_focused_none(t);
    }
}

/// A focused workspace named by the id `id`.
fn focused_workspace(id: u32) -> (r: Workspace)
    ensures
        r@ == focused_on(id as int),
{
    Workspace { name: u32_to_string(id), focused: true }
}

/// Moves to the next or previous workspace of the current group, in the order
/// of the workspace list; there is no wrapping around.
pub fn switch_workspace(context: &WorkspaceContext, direction: Direction) -> (r: Result<Option<Workspace>, NavError>)
    ensures
        outcome_model(r) == switch_outcome(context, direction),
        r matches Ok(Some(w)) ==> group_char_of(w.name@) == group_char_of(context.current_workspace.name@),
{
    let group = match context.current_workspace.get_group() {
        Ok(g) => g,
        Err(e) => return Err(e),
    };
    let c = group.char();
    let ws = &context.workspaces;
    let ghost wsv = models(ws@);
    let mut members: Vec<usize> = Vec::new();
    let mut i: usize = 0;
    while i < ws.len()
        invariant
            i <= ws.len(),
            wsv == models(ws@),
            forall|j: int| 0 <= j < members.len() ==> #[trigger] members[j] < ws.len(),
            members@.map_values(|k: usize| wsv[k as int]) =~= group_members(wsv.subrange(0, i as int), c),
        decreases ws.len() - i,
    {
        let ghost prev = wsv.subrange(0, i as int);
        let ghost next = wsv.subrange(0, i + 1);
        assert(next.drop_last() =~= prev);
        assert(next.last() == ws[i as int]@);
        if WorkspaceGroup::from_workspace(&ws[i]) == Some(WorkspaceGroup(c)) {
            members.push(i);
        }
        i = i + 1;
    }
    assert(wsv.subrange(0, ws.len() as int) =~= wsv);
    let ghost m = group_members(wsv, c);
    proof {
        lemma_members_in_group(wsv, c);
    }
    let ghost order = scan_order(m, direction);
    let len = members.len();
    let mut k: usize = 0;
    while k < len
        invariant
            len == members.len(),
            k <= len,
            wsv == models(ws@),
            m == group_members(wsv, c),
            group_char_of(context.current_workspace.name@) == Some(c),
            ws == &context.workspaces,
            m.len() == len,
            order == scan_order(m, direction),
            forall|j: int| 0 <= j < members.len() ==> #[trigger] members[j] < ws.len(),
            members@.map_values(|k: usize| wsv[k as int]) == m,
            forall|j: int| 0 <= j < k ==> !(#[trigger] order[j]).focused,
            forall|j: int| 0 <= j < m.len() ==> in_group(#[trigger] m[j], c),
        decreases len - k,
    {
        let idx = if direction == Direction::Next { k } else { len - 1 - k };
        assert(order[k as int] == wsv[members[idx as int] as int]);
        assert(wsv[members[idx as int] as int] == ws[members[idx as int] as int]@);
        if ws[members[idx]].focused {
            proof {
                lemma_after_focused_at(order, k as int);
            }
            if k + 1 < len {
                let idx2 = if direction == Direction::Next { k + 1 } else { len - 2 - k };
                assert(order[k + 1] == wsv[members[idx2 as int] as int]);
                assert(wsv[members[idx2 as int] as int] == ws[members[idx2 as int] as int]@);
                assert(in_group(m[idx2 as int], c));
                let w = &ws[members[idx2]];
                return Ok(Some(Workspace { name: w.name.clone(), focused: w.focused }));
            }
            return Ok(None);
        }
        k = k + 1;
    }
    proof {
        lemma_after_focused_none(order);
    }
    Ok(None)
}

/// Goes to the other group: the toggled one from a valid group, else the last
/// valid group used; there, to the workspace last selected in that group.
pub fn group_toggle(context: &WorkspaceContext) -> (r: Result<Option<Workspace>, NavError>)
    ensures
        outcome_model(r) == toggle_outcome(context),
{
    let group = match context.current_workspace.get_group() {
        Ok(g) => g,
        Err(e) => return Err(e),
    };
    let new_group = if group.is_valid() {
        group.toggle()
    } else {
        match WorkspaceGroup::from_id(context.state.last_group) {
            Some(g) => g,
            None => return Ok(None),
        }
    };
    let new_group_id = match new_group.get_id() {
        Ok(id) => id,
        Err(e) => return Err(e),
    };
    let id = lookup_or_first(&context.state.offset, new_group_id);
    Ok(Some(focused_workspace(id)))
}

/// Goes to the workspace `offset` of the current group, or of the last valid
/// group when the current one is not valid.
pub fn goto_workspace_offset(context: &WorkspaceContext, offset: u32) -> (r: Result<Option<Workspace>, NavError>)
    requires
        offset_target_fits(context, offset),
    ensures
        outcome_model(r) == goto_outcome(context, offset),
{
    let group = match context.current_workspace.get_group() {
        Ok(g) => g,
        Err(e) => return Err(e),
    };
    let group_id = match group.get_id() {
        Ok(id) => id,
        Err(e) => return Err(e),
    };
    let idx = if group.is_valid() {
        group_id * 10 + offset
    } else {
        context.state.last_group * 10 + offset
    };
    Ok(Some(focused_workspace(idx)))
}

/// Goes back to the workspace that cycling records for the current group; from
/// a group that is not valid, toggles the group instead.
pub fn cycle(context: &WorkspaceContext) -> (r: Result<Option<Workspace>, NavError>)
    ensures
        outcome_model(r) == cycle_outcome(context),
{
    let group = match context.current_workspace.get_group() {
        Ok(g) => g,
        Err(e) => return Err(e),
    };
    let group_id = match group.get_id() {
        Ok(id) => id,
        Err(e) => return Err(e),
    };
    if !group.is_valid() {
        return group_toggle(context);
    }
    let id = lookup_or_first(&context.state.cycle_offset, group_id);
    Ok(Some(focused_workspace(id)))
}

} // verus!
