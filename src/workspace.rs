//! Workspaces as the window manager names them, and the groups that the
//! first character of a name selects.
use crate::decimal::{decimal, is_digit, digit_value, parse_u32, parse_u32_str, u32_to_string, lemma_decimal_nonempty};
use vstd::prelude::*;

verus! {

/// Why a workspace or a group could not be read as a number.
#[derive(Debug, Clone, PartialEq)]
pub enum NavError {
    /// The workspace name is empty, so it has no group.
    GroupUndeterminable,
    /// The group character is not a decimal digit.
    GroupIdInvalidDigit(char),
    /// The workspace name is not a base-10 `u32`.
    WorkspaceIdUnparsable(String),
}

/// A workspace: its display name and whether it has the focus.
#[derive(Debug, Clone, PartialEq)]
pub struct Workspace {
    pub name: String,
    pub focused: bool,
}

/// What a workspace is, for contracts: its name and its focus flag.
pub struct WorkspaceModel {
    pub name: Seq<char>,
    pub focused: bool,
}

impl View for Workspace {
    type V = WorkspaceModel;

    open spec fn view(&self) -> WorkspaceModel {
        WorkspaceModel { name: self.name@, focused: self.focused }
    }
}

/// The group character of a workspace name: its first character.
pub open spec fn group_char_of(name: Seq<char>) -> Option<char> {
    if name.len() > 0 {
        Some(name[0])
    } else {
        None
    }
}

/// The id of a group character, when it is a digit.
pub open spec fn group_digit(c: char) -> Option<u32> {
    if is_digit(c) {
        Some(digit_value(c) as u32)
    } else {
        None
    }
}

/// Only groups `1` and `2` are navigated as groups of their own.
pub open spec fn is_valid_group(c: char) -> bool {
    c == '1' || c == '2'
}

/// The group that toggling moves to: `'1'` goes to `'2'`, all else to `'1'`.
pub open spec fn toggled(c: char) -> char {
    if c == '1' {
        '2'
    } else {
        '1'
    }
}

/// The group of a group id: the first character of its decimal rendering.
pub open spec fn group_char_of_id(id: u32) -> char {
    decimal(id as nat)[0]
}

/// The group of a workspace as a result: an empty name has none.
pub open spec fn group_result(name: Seq<char>) -> Result<WorkspaceGroup, NavError> {
    match group_char_of(name) {
        Some(c) => Ok(WorkspaceGroup(c)),
        None => Err(NavError::GroupUndeterminable),
    }
}

impl Workspace {
    /// The workspace name read as a number; fails unless it is a base-10 `u32`.
    pub fn get_id(&self) -> (r: Result<u32, NavError>)
        ensures
            match parse_u32(self.name@) {
                Some(v) => r == Ok::<u32, NavError>(v),
                None => r matches Err(NavError::WorkspaceIdUnparsable(n)) && n@ == self.name@,
            },
    {
        match parse_u32_str(self.name.as_str()) {
            Some(v) => Ok(v),
            None => Err(NavError::WorkspaceIdUnparsable(self.name.clone())),
        }
    }

    /// The group of the workspace, the first character of its name.
    pub fn get_group(&self) -> (r: Result<WorkspaceGroup, NavError>)
        ensures
            r == group_result(self.name@),
    {
        match WorkspaceGroup::from_workspace(self) {
            Some(g) => Ok(g),
            None => Err(NavError::GroupUndeterminable),
        }
    }
}

/// A workspace group, named by the first character of its workspaces' names.
#[derive(Debug, Clone, Copy, PartialEq, Eq, Structural)]
pub struct WorkspaceGroup(pub char);

impl WorkspaceGroup {
    /// The group of a workspace; `None` only when its name is empty.
    pub fn from_workspace(workspace: &Workspace) -> (r: Option<WorkspaceGroup>)
        ensures
            r == match group_char_of(workspace.name@) {
                Some(c) => Some(WorkspaceGroup(c)),
                None => None::<WorkspaceGroup>,
            },
    {
        let name = workspace.name.as_str();
        if name.unicode_len() == 0 {
            return None;
        }
        Some(WorkspaceGroup(name.get_char(0)))
    }

    /// The group of a group id: the first digit of `id`, so only single-digit
    /// ids name their own group.
    pub fn from_id(id: u32) -> (r: Option<WorkspaceGroup>)
        ensures
            r == Some(WorkspaceGroup(group_char_of_id(id))),
    {
        proof {
            lemma_decimal_nonempty(id as nat);
        }
        let name = u32_to_string(id);
        let name = name.as_str();
        if name.unicode_len() == 0 {
            return None;
        }
        Some(WorkspaceGroup(name.get_char(0)))
    }

    /// True for the groups `1` and `2`.
    pub fn is_valid(&self) -> (r: bool)
        ensures
            r == is_valid_group(self.0),
    {
        match self.get_id() {
            Ok(id) => 1 <= id && id <= 2,
            Err(_) => false,
        }
    }

    /// The group as a number; fails unless its character is a decimal digit.
    pub fn get_id(&self) -> (r: Result<u32, NavError>)
        ensures
            match group_digit(self.0) {
                Some(d) => r == Ok::<u32, NavError>(d),
                None => r == Err::<u32, NavError>(NavError::GroupIdInvalidDigit(self.0)),
            },
            r is Ok ==> r->Ok_0 <= 9,
    {
        let c = self.0;
        if '0' <= c && c <= '9' {
            Ok((c as u32) - ('0' as u32))
        } else {
            Err(NavError::GroupIdInvalidDigit(c))
        }
    }

    /// The group character, the first character of its workspaces' names.
    pub fn char(&self) -> (r: char)
        ensures
            r == self.0,
    {
        self.0
    }

    /// The other group: `'1'` becomes `'2'`, every other character `'1'`.
    pub fn toggle(&self) -> (r: WorkspaceGroup)
        ensures
            r == WorkspaceGroup(toggled(self.0)),
    {
        let c = match self.0 {
            '1' => '2',
            _ => '1',
        };
        WorkspaceGroup(c)
    }
}

} // verus!
