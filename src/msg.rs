use crate::common::{Pane, SessionInfo};
use crate::entry::Entry;
use crate::model::Model;
use vstd::prelude::*;

verus! {

/// An event for the update function: a user intent or a finished job.
#[derive(Debug)]
pub enum Msg {
    CopyMarkedItems,
    GoBackOrQuit,
    GoToNextSession,
    GoToPane(Pane),
    GoToPreviousSession,
    GoToSession(usize),
    MarkPath,
    MoveMarkedItems,
    NavigateIntoDir,
    NavigateOutOfDir,
    QuitImmediately,
    SelectFirst,
    SelectLast,
    SelectNext,
    SelectPrevious,
    TerminalResize(u16, u16),
    /// A copy or move ended, with the error's description if it failed.
    FSOperationFinished(Result<(), String>),
    DirectoryRead { session_info: SessionInfo, entries: Vec<Entry>, navigated_to: bool },
    ReadingDirFailed(String),
}

/// A key on the keyboard, as far as the key bindings tell keys apart.
#[derive(Debug, Clone, Copy, PartialEq, Eq, Structural)]
pub enum KeyCode {
    Char(char),
    Esc,
    Tab,
    BackTab,
    Up,
    Down,
    Left,
    Right,
    Other,
}

/// A key event: the key, whether Control was the one modifier held, and
/// whether it is a press (rather than a release or a repeat).
#[derive(Debug, Clone, Copy, PartialEq, Eq, Structural)]
pub struct KeyInput {
    pub code: KeyCode,
    pub control_only: bool,
    pub is_press: bool,
}

/// A raw terminal event.
#[derive(Debug, Clone, Copy, PartialEq, Eq, Structural)]
pub enum InputEvent {
    Key(KeyInput),
    Resize(u16, u16),
    Other,
}

/// Quitting keys: the only ones heard while the terminal is too small.
pub open spec fn is_quit_key(code: KeyCode) -> bool {
    code == KeyCode::Esc || code == KeyCode::Char('q')
}

/// The meaning of a key press in the explorer pane.
pub open spec fn explorer_key_msg(code: KeyCode, control_only: bool, has_marks: bool) -> Option<Msg> {
    if code == KeyCode::Char(' ') {
        Some(Msg::MarkPath)
    } else if code == KeyCode::Char('j') || code == KeyCode::Down {
        Some(Msg::SelectNext)
    } else if code == KeyCode::Char('k') || code == KeyCode::Up {
        Some(Msg::SelectPrevious)
    } else if code == KeyCode::Char('g') {
        Some(Msg::SelectFirst)
    } else if code == KeyCode::Char('G') {
        Some(Msg::SelectLast)
    } else if code == KeyCode::Tab {
        Some(Msg::GoToNextSession)
    } else if code == KeyCode::Char('1') {
        Some(Msg::GoToSession(0))
    } else if code == KeyCode::Char('2') {
        Some(Msg::GoToSession(1))
    } else if code == KeyCode::Char('3') {
        Some(Msg::GoToSession(2))
    } else if code == KeyCode::Char('4') {
        Some(Msg::GoToSession(3))
    } else if code == KeyCode::BackTab {
        Some(Msg::GoToPreviousSession)
    } else if code == KeyCode::Char('l') || code == KeyCode::Right {
        Some(Msg::NavigateIntoDir)
    } else if code == KeyCode::Char('h') || code == KeyCode::Left {
        Some(Msg::NavigateOutOfDir)
    } else if code == KeyCode::Char('p') && has_marks {
        Some(Msg::CopyMarkedItems)
    } else if code == KeyCode::Char('v') && has_marks {
        Some(Msg::MoveMarkedItems)
    } else if is_quit_key(code) {
        Some(Msg::GoBackOrQuit)
    } else if code == KeyCode::Char('c') && control_only {
        Some(Msg::QuitImmediately)
    } else if code == KeyCode::Char('?') {
        Some(Msg::GoToPane(Pane::Help))
    } else {
        None
    }
}

/// The meaning of a key press in the help pane.
pub open spec fn help_key_msg(code: KeyCode, control_only: bool) -> Option<Msg> {
    if code == KeyCode::Char('?') || is_quit_key(code) {
        Some(Msg::GoBackOrQuit)
    } else if code == KeyCode::Char('c') && control_only {
        Some(Msg::QuitImmediately)
    } else {
        None
    }
}

/// The message an event maps to, given whether the terminal is too small,
/// the active pane, and whether anything is marked.
pub open spec fn event_msg(too_small: bool, pane: Pane, has_marks: bool, event: InputEvent) -> Option<
    Msg,
> {
    match event {
        InputEvent::Key(k) => if !k.is_press {
            None
        } else if too_small {
            if is_quit_key(k.code) {
                Some(Msg::GoBackOrQuit)
            } else {
                None
            }
        } else {
            match pane {
                Pane::Explorer => explorer_key_msg(k.code, k.control_only, has_marks),
                Pane::Help => help_key_msg(k.code, k.control_only),
            }
        },
        InputEvent::Resize(w, h) => Some(Msg::TerminalResize(w, h)),
        InputEvent::Other => None,
    }
}

fn explorer_key(code: KeyCode, control_only: bool, has_marks: bool) -> (r: Option<Msg>)
    ensures
        r == explorer_key_msg(code, control_only, has_marks),
{
    if code == KeyCode::Char(' ') {
        Some(Msg::MarkPath)
    } else if code == KeyCode::Char('j') || code == KeyCode::Down {
        Some(Msg::SelectNext)
    } else if code == KeyCode::Char('k') || code == KeyCode::Up {
        Some(Msg::SelectPrevious)
    } else if code == KeyCode::Char('g') {
        Some(Msg::SelectFirst)
    } else if code == KeyCode::Char('G') {
        Some(Msg::SelectLast)
    } else if code == KeyCode::Tab {
        Some(Msg::GoToNextSession)
    } else if code == KeyCode::Char('1') {
        Some(Msg::GoToSession(0))
    } else if code == KeyCode::Char('2') {
        Some(Msg::GoToSession(1))
    } else if code == KeyCode::Char('3') {
        Some(Msg::GoToSession(2))
    } else if code == KeyCode::Char('4') {
        Some(Msg::GoToSession(3))
    } else if code == KeyCode::BackTab {
        Some(Msg::GoToPreviousSession)
    } else if code == KeyCode::Char('l') || code == KeyCode::Right {
        Some(Msg::NavigateIntoDir)
    } else if code == KeyCode::Char('h') || code == KeyCode::Left {
        Some(Msg::NavigateOutOfDir)
    } else if code == KeyCode::Char('p') && has_marks {
        Some(Msg::CopyMarkedItems)
    } else if code == KeyCode::Char('v') && has_marks {
        Some(Msg::MoveMarkedItems)
    } else if code == KeyCode::Esc || code == KeyCode::Char('q') {
        Some(Msg::GoBackOrQuit)
    } else if code == KeyCode::Char('c') && control_only {
        Some(Msg::QuitImmediately)
    } else if code == KeyCode::Char('?') {
        Some(Msg::GoToPane(Pane::Help))
    } else {
        None
    }
}

/// Maps a terminal event to at most one message.
pub fn get_event_handling_msg(model: &Model, event: InputEvent) -> (r: Option<Msg>)
    ensures
        r == event_msg(
            model.terminal_too_small,
            model.active_pane,
            model.marked_paths@.len() > 0,
            event,
        ),
{
    match event {
        InputEvent::Key(k) => {
            if !k.is_press {
                None
            } else if model.terminal_too_small {
                if k.code == KeyCode::Esc || k.code == KeyCode::Char('q') {
                    Some(Msg::GoBackOrQuit)
                } else {
                    None
                }
            } else {
                match model.active_pane {
                    Pane::Explorer => explorer_key(
                        k.code,
                        k.control_only,
                        model.marked_paths.len() > 0,
                    ),
                    Pane::Help => {
                        if k.code == KeyCode::Char('?') || k.code == KeyCode::Esc || k.code
                            == KeyCode::Char('q') {
                            Some(Msg::GoBackOrQuit)
                        } else if k.code == KeyCode::Char('c') && k.control_only {
                            Some(Msg::QuitImmediately)
                        } else {
                            None
                        }
                    },
                }
            }
        },
        InputEvent::Resize(w, h) => Some(Msg::TerminalResize(w, h)),
        InputEvent::Other => None,
    }
}

} // verus!
