//! Facts about the navigation decisions and the memory that they rely on.
use crate::actions::{
    Direction, WorkspaceContext, after_focused, cycle_outcome, focused_on, goto_outcome,
    group_members, in_group, scan_order, switch_outcome,
};
use crate::commit::reconciled;
use crate::state::StateModel;
use crate::workspace::{WorkspaceModel, group_char_of, group_digit, is_valid_group, toggled};
use vstd::prelude::*;

verus! {

/// `ms` with the focus on the workspace at `t` alone.
pub open spec fn refocused(ms: Seq<WorkspaceModel>, t: int) -> Seq<WorkspaceModel> {
    Seq::new(ms.len(), |j: int| WorkspaceModel { name: ms[j].name, focused: j == t })
}

/// How many members of group `c` come before position `t` of `ws`.
pub open spec fn member_rank(ws: Seq<WorkspaceModel>, c: char, t: int) -> int {
    group_members(ws.subrange(0, t), c).len() as int
}

/// Moving the focus within a list moves it within each group alone: the
/// members keep their names and order, and only the member at position `t`,
/// the one ranked `member_rank(ws, c, t)` in its group, is focused.
proof fn lemma_refocused_members(ws: Seq<WorkspaceModel>, t: int, c: char)
    ensures
        group_members(refocused(ws, t), c).len() == group_members(ws, c).len(),
        forall|j: int|
            0 <= j < group_members(ws, c).len() ==> (#[trigger] group_members(refocused(ws, t), c)[j]).name
                == group_members(ws, c)[j].name,
        forall|j: int|
            0 <= j < group_members(ws, c).len() ==> ((#[trigger] group_members(refocused(ws, t), c)[j]).focused
                <==> (0 <= t < ws.len() && in_group(ws[t], c) && j == member_rank(ws, c, t))),
        0 <= t < ws.len() && in_group(ws[t], c) ==> member_rank(ws, c, t) < group_members(ws, c).len()
            && group_members(ws, c)[member_rank(ws, c, t)].name == ws[t].name,
    decreases ws.len(),
{
    if ws.len() > 0 {
        let n = ws.len() as int;
        let p = ws.drop_last();
        let x = ws.last();
        lemma_refocused_members(p, t, c);
        let rw = refocused(ws, t);
        assert(rw.drop_last() =~= refocused(p, t));
        assert(rw.last() == WorkspaceModel { name: x.name, focused: n - 1 == t });
        assert(p.subrange(0, n - 1) =~= p);
        if 0 <= t <= n - 1 {
            assert(ws.subrange(0, t) =~= p.subrange(0, t));
        }
        let mp = group_members(p, c);
        let mmp = group_members(refocused(p, t), c);
        if in_group(x, c) {
            assert(group_members(ws, c) == mp.push(x));
            assert(group_members(rw, c) == mmp.push(rw.last()));
        } else {
            assert(group_members(ws, c) == mp);
            assert(group_members(rw, c) == mmp);
        }
    }
}

/// In a list with the focus on position `f` alone, a switch forward reaches
/// the member of the same group that comes next, at position `t`; with the
/// focus on `t` alone, a switch backward comes back to the one at `f`.
pub proof fn law_switch_next_then_prev(ws: Seq<WorkspaceModel>, c: char, f: int, t: int)
    requires
        0 <= f < ws.len(),
        0 <= t < ws.len(),
        in_group(ws[f], c),
        in_group(ws[t], c),
        member_rank(ws, c, t) == member_rank(ws, c, f) + 1,
    ensures
        after_focused(scan_order(group_members(refocused(ws, f), c), Direction::Next)) matches Some(w)
            && w.name == ws[t].name,
        after_focused(scan_order(group_members(refocused(ws, t), c), Direction::Prev)) matches Some(w)
            && w.name == ws[f].name,
{
    lemma_refocused_members(ws, f, c);
    lemma_refocused_members(ws, t, c);
    let i = member_rank(ws, c, f);
    let mf = group_members(refocused(ws, f), c);
    let mt = group_members(refocused(ws, t), c);
    crate::actions::lemma_after_focused_at(mf, i);
    let r = mt.reverse();
    let k = mt.len() - 2 - i;
    assert forall|j: int| 0 <= j < k implies !(#[trigger] r[j]).focused by {
        assert(r[j] == mt[mt.len() - 1 - j]);
    }
    assert(r[k] == mt[i + 1]);
    assert(r[k + 1] == mt[i]);
    crate::actions::lemma_after_focused_at(r, k);
}

/// A switch stays in the current group: what it returns belongs to the group
/// of the current workspace.
pub proof fn law_switch_stays_in_group(ctx: &WorkspaceContext, dir: Direction)
    ensures
        switch_outcome(ctx, dir) matches Ok(Some(w)) ==> group_char_of(w.name) == group_char_of(
            ctx.current_workspace.name@,
        ),
{
    if let Some(c) = group_char_of(ctx.current_workspace.name@) {
        let m = group_members(crate::actions::models(ctx.workspaces@), c);
        crate::actions::lemma_members_in_group(crate::actions::models(ctx.workspaces@), c);
        let s = scan_order(m, dir);
        assert forall|j: int| 0 <= j < s.len() implies in_group(#[trigger] s[j], c) by {
            if dir == Direction::Prev {
                assert(s[j] == m[m.len() - 1 - j]);
            }
        }
        lemma_after_focused_member(s, c);
    }
}

proof fn lemma_after_focused_member(s: Seq<WorkspaceModel>, c: char)
    requires
        forall|j: int| 0 <= j < s.len() ==> in_group(#[trigger] s[j], c),
    ensures
        after_focused(s) matches Some(w) ==> in_group(w, c),
    decreases s.len(),
{
    if s.len() > 0 && !s[0].focused {
        let t = s.drop_first();
        assert forall|j: int| 0 <= j < t.len() implies in_group(#[trigger] t[j], c) by {
            assert(t[j] == s[j + 1]);
        }
        lemma_after_focused_member(t, c);
    }
}

/// Toggling twice gives back `1` from `1` and `2` from every other group, so
/// it is no round trip outside the groups `1` and `2`.
pub proof fn law_toggle_twice(c: char)
    ensures
        toggled(toggled(c)) == if c == '1' {
            '1'
        } else {
            '2'
        },
{
}

/// From a valid group `g`, going to offset `offset` always aims at
/// `g * 10 + offset`, whatever the memory holds.
pub proof fn law_goto_in_valid_group(ctx: &WorkspaceContext, offset: u32)
    requires
        ctx.current_workspace.name@.len() > 0,
        is_valid_group(ctx.current_workspace.name@[0]),
    ensures
        goto_outcome(ctx, offset) == Ok::<Option<WorkspaceModel>, crate::workspace::NavError>(
            Some(focused_on(group_digit(ctx.current_workspace.name@[0])->Some_0 * 10 + offset)),
        ),
{
}

/// From a valid group `g` with nothing recorded for cycling, cycling goes to
/// the group's first workspace `g * 10 + 1`.
pub proof fn law_cycle_without_record(ctx: &WorkspaceContext)
    requires
        ctx.current_workspace.name@.len() > 0,
        is_valid_group(ctx.current_workspace.name@[0]),
        !ctx.state.cycle_offset@.contains_key(group_digit(ctx.current_workspace.name@[0])->Some_0),
    ensures
        cycle_outcome(ctx) == Ok::<Option<WorkspaceModel>, crate::workspace::NavError>(
            Some(focused_on(group_digit(ctx.current_workspace.name@[0])->Some_0 * 10 + 1)),
        ),
{
}

/// After a move within group `g` away from workspace `w`, the memory records
/// `w` for cycling, and cycling from group `g` with that memory goes to `w`.
pub proof fn law_cycle_after_commit(s: StateModel, g: u32, w: u32, target: u32, new_valid: bool, ctx: &WorkspaceContext)
    requires
        target != w,
        ctx.current_workspace.name@.len() > 0,
        is_valid_group(ctx.current_workspace.name@[0]),
        group_digit(ctx.current_workspace.name@[0]) == Some(g),
        reconciled(s, g, w, g, target, new_valid) == Some(ctx.state@),
    ensures
        cycle_outcome(ctx) == Ok::<Option<WorkspaceModel>, crate::workspace::NavError>(
            Some(focused_on(w as int)),
        ),
{
    assert(ctx.state.cycle_offset@ == s.cycle_offset.insert(g, w));
}

/// A move within a group records the target as the group's last workspace and
/// the workspace left behind for cycling.
pub proof fn law_commit_within_group(s: StateModel, g: u32, w: u32, target: u32, new_valid: bool)
    requires
        target != w,
    ensures
        reconciled(s, g, w, g, target, new_valid) matches Some(n) && n.offset == s.offset.insert(
            g,
            target,
        ) && n.cycle_offset == s.cycle_offset.insert(g, w),
{
}

/// A move to another group records the target as that group's last workspace,
/// makes a valid target group the last group, and leaves the cycling record
/// as it was.
pub proof fn law_commit_across_groups(s: StateModel, cur_g: u32, w: u32, new_g: u32, target: u32, new_valid: bool)
    requires
        new_g != cur_g,
    ensures
        reconciled(s, cur_g, w, new_g, target, new_valid) matches Some(n) && n.offset
            == s.offset.insert(new_g, target) && n.cycle_offset == s.cycle_offset && (new_valid
            ==> n.last_group == new_g) && (!new_valid ==> n.last_group == s.last_group),
{
}

} // verus!
