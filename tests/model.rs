use swaygrouptool::commit::Info;
use swaygrouptool::decimal::{parse_u32_str, u32_to_string};
use swaygrouptool::state::{get_state_file, read_init_state, State};
use swaygrouptool::workspace::{NavError, Workspace, WorkspaceGroup};

fn ws(name: &str) -> Workspace {
    Workspace { name: name.to_string(), focused: true }
}

#[test]
fn workspace_id_reads_decimal_names() {
    assert_eq!(ws("12").get_id(), Ok(12));
    assert_eq!(ws("+7").get_id(), Ok(7));
    assert_eq!(ws("4294967295").get_id(), Ok(4294967295));
    assert_eq!(
        ws("4294967296").get_id(),
        Err(NavError::WorkspaceIdUnparsable("4294967296".to_string()))
    );
    assert_eq!(ws("web").get_id(), Err(NavError::WorkspaceIdUnparsable("web".to_string())));
    assert_eq!(ws("").get_id(), Err(NavError::WorkspaceIdUnparsable("".to_string())));
    assert_eq!(ws("+").get_id(), Err(NavError::WorkspaceIdUnparsable("+".to_string())));
    assert_eq!(ws("-1").get_id(), Err(NavError::WorkspaceIdUnparsable("-1".to_string())));
}

#[test]
fn parse_matches_std() {
    for s in ["0", "007", "+0", "99999999999", "1a", " 1", "++1", "4294967295"] {
        assert_eq!(parse_u32_str(s), s.parse::<u32>().ok());
    }
}

#[test]
fn rendering_gives_decimal_digits() {
    assert_eq!(u32_to_string(0), "0");
    assert_eq!(u32_to_string(4294967295), "4294967295");
}

#[test]
fn workspace_group_is_first_character() {
    assert_eq!(ws("25").get_group(), Ok(WorkspaceGroup('2')));
    assert_eq!(ws("web").get_group().unwrap().char(), 'w');
    assert_eq!(ws("").get_group(), Err(NavError::GroupUndeterminable));
    assert_eq!(WorkspaceGroup::from_workspace(&ws("")), None);
}

#[test]
fn group_from_id_takes_leading_digit() {
    assert_eq!(WorkspaceGroup::from_id(2), Some(WorkspaceGroup('2')));
    assert_eq!(WorkspaceGroup::from_id(37), Some(WorkspaceGroup('3')));
    assert_eq!(WorkspaceGroup::from_id(0), Some(WorkspaceGroup('0')));
}

#[test]
fn group_validity_and_ids() {
    assert!(WorkspaceGroup('1').is_valid());
    assert!(WorkspaceGroup('2').is_valid());
    assert!(!WorkspaceGroup('0').is_valid());
    assert!(!WorkspaceGroup('3').is_valid());
    assert!(!WorkspaceGroup('w').is_valid());
    assert_eq!(WorkspaceGroup('7').get_id(), Ok(7));
    assert_eq!(WorkspaceGroup('w').get_id(), Err(NavError::GroupIdInvalidDigit('w')));
}

#[test]
fn toggle_twice_is_not_identity_outside_valid_groups() {
    let nine = WorkspaceGroup::from_id(9).unwrap();
    assert_eq!(nine.toggle(), WorkspaceGroup('1'));
    assert_eq!(nine.toggle().toggle(), WorkspaceGroup('2'));
    assert_eq!(WorkspaceGroup('2').toggle(), WorkspaceGroup('1'));
    assert_eq!(WorkspaceGroup('1').toggle().toggle(), WorkspaceGroup('1'));
}

#[test]
fn state_file_is_inside_directory() {
    assert_eq!(get_state_file("/tmp/state/tool"), "/tmp/state/tool/state.json");
    assert_eq!(get_state_file("/tmp/state/tool/"), "/tmp/state/tool/state.json");
    assert_eq!(get_state_file(""), "state.json");
}

#[test]
fn init_state_defaults_when_nothing_read() {
    let s = read_init_state(None);
    assert!(s.offset.is_empty());
    assert!(s.cycle_offset.is_empty());
    assert_eq!(s.last_group, 1);

    let mut loaded = State::new();
    loaded.last_group = 2;
    loaded.offset.insert(2, 23);
    let s = read_init_state(Some(loaded));
    assert_eq!(s.last_group, 2);
    assert_eq!(s.offset.get(&2), Some(&23));
}

#[test]
fn info_reports_ids() {
    assert_eq!(
        Info::from_workspace(&ws("23")),
        Ok(Info { current_workspace_id: 23, current_group_id: 2 })
    );
    assert_eq!(
        Info::from_workspace(&ws("2a")),
        Err(NavError::WorkspaceIdUnparsable("2a".to_string()))
    );
    assert_eq!(Info::from_workspace(&ws("")), Err(NavError::GroupUndeterminable));
}
