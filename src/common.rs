use crate::path::FsPath;
use vstd::prelude::*;

verus! {

/// Number of session slots.
pub const MAX_NUM_SESSIONS: usize = 4;

/// Smallest terminal width that the explorer works in.
pub const MIN_TERMINAL_WIDTH: u16 = 50;

/// Smallest terminal height that the explorer works in.
pub const MIN_TERMINAL_HEIGHT: u16 = 24;

/// The key bindings, as shown in the help pane.
pub fn get_help_content() -> (r: String)
    ensures
        r@ == "movement\n  j / down      select next\n  k / up        select previous\n  g             select first\n  G             select last\n  l / right     go into directory\n  h / left      go to parent directory\n\nsessions\n  1..4          go to session\n  tab           next session\n  shift+tab     previous session\n\nmarks\n  space         mark or unmark item\n  p             copy marked items here\n  v             move marked items here\n\ngeneral\n  ?             help\n  q / esc       go back or quit\n  ctrl+c        quit immediately\n"@,
{
    String::from_str(
        "movement\n  j / down      select next\n  k / up        select previous\n  g             select first\n  G             select last\n  l / right     go into directory\n  h / left      go to parent directory\n\nsessions\n  1..4          go to session\n  tab           next session\n  shift+tab     previous session\n\nmarks\n  space         mark or unmark item\n  p             copy marked items here\n  v             move marked items here\n\ngeneral\n  ?             help\n  q / esc       go back or quit\n  ctrl+c        quit immediately\n",
    )
}

/// Which session a directory listing is for, and the directory's path.
#[derive(Debug)]
pub struct SessionInfo {
    pub index: usize,
    pub path: FsPath,
}

/// A directory to list, and the session that asked for it.
#[derive(Debug)]
pub struct DirectoryAddress {
    pub session_index: usize,
    pub path: FsPath,
}

impl Clone for SessionInfo {
    fn clone(&self) -> (r: Self)
        ensures
            r.index == self.index,
            r.path@ == self.path@,
    {
        SessionInfo { index: self.index, path: self.path.clone() }
    }
}

impl Clone for DirectoryAddress {
    fn clone(&self) -> (r: Self)
        ensures
            r.session_index == self.session_index,
            r.path@ == self.path@,
    {
        DirectoryAddress { session_index: self.session_index, path: self.path.clone() }
    }
}

impl From<DirectoryAddress> for SessionInfo {
    fn from(val: DirectoryAddress) -> (r: SessionInfo) {
        SessionInfo { index: val.session_index, path: val.path }
    }
}

impl vstd::std_specs::convert::FromSpecImpl<DirectoryAddress> for SessionInfo {
    open spec fn obeys_from_spec() -> bool {
        true
    }

    open spec fn from_spec(v: DirectoryAddress) -> SessionInfo {
        SessionInfo { index: v.session_index, path: v.path }
    }
}

/// The pane that has the user's attention.
#[derive(Debug, Clone, Copy, PartialEq, Eq, Structural)]
pub enum Pane {
    Explorer,
    Help,
}

impl Pane {
    /// The pane's name.
    pub fn name(&self) -> (r: String)
        ensures
            r@ == (match self {
                Pane::Explorer => "explorer"@,
                Pane::Help => "help"@,
            }),
    {
        match self {
            Pane::Explorer => String::from_str("explorer"),
            Pane::Help => String::from_str("help"),
        }
    }
}

/// Width and height of the terminal, in cells.
#[derive(Debug, Clone, Copy, PartialEq, Eq, Structural)]
pub struct TerminalDimensions {
    pub width: u16,
    pub height: u16,
}

impl TerminalDimensions {
    pub fn update(&mut self, new_width: u16, new_height: u16)
        ensures
            final(self).width == new_width,
            final(self).height == new_height,
    {
        self.width = new_width;
        self.height = new_height;
    }
}

impl From<(u16, u16)> for TerminalDimensions {
    fn from(value: (u16, u16)) -> (r: TerminalDimensions) {
        let (width, height) = value;
        TerminalDimensions { width, height }
    }
}

impl vstd::std_specs::convert::FromSpecImpl<(u16, u16)> for TerminalDimensions {
    open spec fn obeys_from_spec() -> bool {
        true
    }

    open spec fn from_spec(v: (u16, u16)) -> TerminalDimensions {
        TerminalDimensions { width: v.0, height: v.1 }
    }
}

/// Whether a terminal of the given size is too small to work in.
pub open spec fn too_small(width: u16, height: u16) -> bool {
    !(width >= MIN_TERMINAL_WIDTH && height >= MIN_TERMINAL_HEIGHT)
}

} // verus!
