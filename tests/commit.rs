use std::collections::HashMap;
use swaygrouptool::actions::{cycle, switch_workspace, Direction, WorkspaceContext};
use swaygrouptool::commit::{commit_action, reconcile_state, Action};
use swaygrouptool::state::State;
use swaygrouptool::workspace::{NavError, Workspace};

fn ws(name: &str, focused: bool) -> Workspace {
    Workspace { name: name.to_string(), focused }
}

fn context(current: &str, state: State) -> WorkspaceContext {
    let names = ["11", "12", "14", "22", "25"];
    WorkspaceContext {
        current_workspace: ws(current, true),
        workspaces: names.iter().map(|n| ws(n, *n == current)).collect(),
        state,
    }
}

#[test]
fn commit_within_group_records_cycle_target() {
    let state = State::new();
    let s = reconcile_state(&ws("11", true), &ws("14", true), &state).unwrap().unwrap();
    assert_eq!(s.offset.get(&1), Some(&14));
    assert_eq!(s.cycle_offset.get(&1), Some(&11));
    assert_eq!(s.last_group, 1);
}

#[test]
fn commit_across_groups_keeps_cycle_record() {
    let mut state = State::new();
    state.cycle_offset.insert(1, 12);
    let s = reconcile_state(&ws("11", true), &ws("22", true), &state).unwrap().unwrap();
    assert_eq!(s.offset.get(&2), Some(&22));
    assert_eq!(s.last_group, 2);
    let mut expected = HashMap::new();
    expected.insert(1, 12);
    assert_eq!(s.cycle_offset, expected);
}

#[test]
fn commit_to_invalid_group_keeps_last_group() {
    let s = reconcile_state(&ws("22", true), &ws("98", true), &State::new()).unwrap().unwrap();
    assert_eq!(s.offset.get(&9), Some(&98));
    assert_eq!(s.last_group, 1);
    assert!(s.cycle_offset.is_empty());
}

#[test]
fn commit_to_same_workspace_changes_nothing() {
    assert!(reconcile_state(&ws("12", true), &ws("12", true), &State::new()).unwrap().is_none());
}

#[test]
fn commit_with_unreadable_names_fails() {
    assert_eq!(
        reconcile_state(&ws("", true), &ws("12", true), &State::new()).err(),
        Some(NavError::GroupUndeterminable)
    );
    assert_eq!(
        reconcile_state(&ws("12", true), &ws("1x", true), &State::new()).err(),
        Some(NavError::WorkspaceIdUnparsable("1x".to_string()))
    );
}

#[test]
fn cycle_after_commit_goes_back() {
    let ctx = context("11", State::new());
    let target = switch_workspace(&ctx, Direction::Next).unwrap();
    let action = Action { new_workspace: target, move_container: false };
    let plan = commit_action(&action, &ctx, false).unwrap();
    let state = plan.new_state.unwrap();
    let after = context("12", state);
    assert_eq!(cycle(&after).unwrap().unwrap().name, "11");
}

#[test]
fn commit_plan_lists_commands() {
    let ctx = context("11", State::new());
    let action = Action { new_workspace: Some(ws("14", true)), move_container: true };
    let plan = commit_action(&action, &ctx, false).unwrap();
    assert_eq!(plan.move_command.as_deref(), Some("move container to workspace 14"));
    assert_eq!(plan.focus_command.as_deref(), Some("workspace 14"));
    assert!(plan.persist);
    assert!(plan.new_state.is_some());
}

#[test]
fn dry_run_plan_only_moves_container() {
    let ctx = context("11", State::new());
    let action = Action { new_workspace: Some(ws("21", true)), move_container: true };
    let plan = commit_action(&action, &ctx, true).unwrap();
    assert_eq!(plan.move_command.as_deref(), Some("move container to workspace 21"));
    assert_eq!(plan.focus_command, None);
    assert!(!plan.persist);
    assert_eq!(plan.new_state.unwrap().last_group, 2);
}

#[test]
fn commit_without_target_does_nothing() {
    let ctx = context("11", State::new());
    let action = Action { new_workspace: None, move_container: true };
    let plan = commit_action(&action, &ctx, false).unwrap();
    assert!(plan.move_command.is_none() && plan.focus_command.is_none());
    assert!(plan.new_state.is_none() && !plan.persist);
}

#[test]
fn commit_to_current_workspace_writes_nothing() {
    let ctx = context("12", State::new());
    let action = Action { new_workspace: Some(ws("12", true)), move_container: false };
    let plan = commit_action(&action, &ctx, false).unwrap();
    assert_eq!(plan.focus_command.as_deref(), Some("workspace 12"));
    assert!(plan.new_state.is_none() && !plan.persist);
}
