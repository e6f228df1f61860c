use atls::cmd::{initial_commands, listing_message, Cmd, FSOperation};
use atls::common::{get_help_content, Pane, SessionInfo, TerminalDimensions};
use atls::entry::{kind_from_metadata, sort_entries, Entry, EntryKind};
use atls::model::Model;
use atls::msg::{get_event_handling_msg, InputEvent, KeyCode, KeyInput, Msg};
use atls::path::FsPath;
use atls::session::{MessageKind, RunningState, Session, UserMsg};
use atls::update::update;

fn p(s: &str) -> FsPath {
    FsPath::from_components(
        s.split('/')
            .filter(|c| !c.is_empty())
            .map(|c| c.to_string())
            .collect(),
    )
}

fn entry(s: &str, kind: EntryKind) -> Entry {
    Entry::new(p(s), kind)
}

fn model_at(root: &str) -> Model {
    Model::new(p(root), TerminalDimensions { width: 80, height: 30 }, false)
}

fn key(c: char) -> InputEvent {
    InputEvent::Key(KeyInput { code: KeyCode::Char(c), control_only: false, is_press: true })
}

fn listed(m: &mut Model, index: usize, dir: &str, entries: Vec<Entry>, navigated_to: bool) {
    let cmds = update(
        m,
        Msg::DirectoryRead { session_info: SessionInfo { index, path: p(dir) }, entries, navigated_to },
    );
    assert!(cmds.is_empty());
}

fn names(s: &Session) -> Vec<String> {
    match s {
        Session::Initialized { entries, .. } => entries.iter().map(|i| i.entry.path_str()).collect(),
        Session::Uninitialized => vec![],
    }
}

fn selected(s: &Session) -> Option<usize> {
    match s {
        Session::Initialized { selected, .. } => *selected,
        Session::Uninitialized => None,
    }
}

fn marked_flags(s: &Session) -> Vec<bool> {
    match s {
        Session::Initialized { entries, .. } => entries.iter().map(|i| i.marked).collect(),
        Session::Uninitialized => vec![],
    }
}

fn read_dir(c: &Cmd) -> (usize, FsPath, bool) {
    match c {
        Cmd::ReadDir((info, nav)) => (info.index, info.path.clone(), *nav),
        _ => panic!("expected a directory listing"),
    }
}

#[test]
fn test_entries_are_sorted_correctly() {
    let entries = vec![
        entry("/home/user/atls/Cargo.lock", EntryKind::File),
        entry("/home/user/atls/src", EntryKind::Directory),
        entry("/home/user/atls/.git", EntryKind::Directory),
        entry("/home/user/atls/link-a", EntryKind::Symlink),
        entry("/home/user/atls/Cargo.toml", EntryKind::File),
        entry("/home/user/atls/file", EntryKind::Unknown),
        entry("/home/user/atls/target", EntryKind::Directory),
        entry("/home/user/atls/link-b", EntryKind::Symlink),
        entry("/home/user/atls/.fdignore", EntryKind::File),
    ];

    let entries = sort_entries(entries);

    let paths = entries.into_iter().map(|e| e.path_str()).collect::<Vec<_>>();
    assert_eq!(
        paths,
        vec![
            ".git/",
            "src/",
            "target/",
            "link-a",
            "link-b",
            ".fdignore",
            "Cargo.lock",
            "Cargo.toml",
            "file",
        ]
    );
}

#[test]
fn sorting_puts_directories_first_whatever_their_names() {
    let entries = vec![
        entry("/w/file.txt", EntryKind::File),
        entry("/w/src", EntryKind::Directory),
        entry("/w/.git", EntryKind::Directory),
        entry("/w/a-link", EntryKind::Symlink),
        entry("/w/zz", EntryKind::Directory),
    ];
    let names = sort_entries(entries).iter().map(|e| e.path_str()).collect::<Vec<_>>();
    assert_eq!(names, vec![".git/", "src/", "zz/", "a-link", "file.txt"]);
}

#[test]
fn sorting_compares_bytes_and_keeps_duplicates() {
    let entries = vec![
        entry("/w/b", EntryKind::File),
        entry("/w/B", EntryKind::File),
        entry("/w/a", EntryKind::File),
        entry("/w/b", EntryKind::File),
    ];
    let names = sort_entries(entries).iter().map(|e| e.path_str()).collect::<Vec<_>>();
    assert_eq!(names, vec!["B", "a", "b", "b"]);
    assert!(sort_entries(vec![]).is_empty());
}

#[test]
fn entry_names_and_paths() {
    assert_eq!(entry("/", EntryKind::Directory).path_str(), "unknown/");
    assert_eq!(entry("/a/b", EntryKind::Symlink).path_str(), "b");
    assert_eq!(entry("/a/b", EntryKind::File).kind(), EntryKind::File);
    assert!(entry("/a/b", EntryKind::File) == entry("/a/b", EntryKind::Directory));
    assert!(p("/a/b").parent().unwrap() == p("/a"));
    assert!(p("/").parent().is_none());
    assert!(p("/a").join("b") == p("/a/b"));
    assert_eq!(p("/a/b").compare(&p("/a-b")), std::cmp::Ordering::Less);
    assert_eq!(p("/a").compare(&p("/a/b")), std::cmp::Ordering::Less);
    assert_eq!(p("/a/b").compare(&p("/a/b")), std::cmp::Ordering::Equal);
}

#[test]
fn metadata_maps_to_kinds() {
    assert_eq!(kind_from_metadata(true, false, false), EntryKind::File);
    assert_eq!(kind_from_metadata(false, true, false), EntryKind::Directory);
    assert_eq!(kind_from_metadata(false, false, true), EntryKind::Symlink);
    assert_eq!(kind_from_metadata(false, false, false), EntryKind::Unknown);
}

#[test]
fn listing_message_sorts_or_reports() {
    let info = SessionInfo { index: 2, path: p("/w") };
    let msg = listing_message(
        info.clone(),
        true,
        Ok(vec![entry("/w/b.txt", EntryKind::File), entry("/w/a", EntryKind::Directory)]),
    );
    match msg {
        Msg::DirectoryRead { session_info, entries, navigated_to } => {
            assert_eq!(session_info.index, 2);
            assert!(navigated_to);
            let names = entries.iter().map(|e| e.path_str()).collect::<Vec<_>>();
            assert_eq!(names, vec!["a/", "b.txt"]);
        }
        _ => panic!("expected a listing"),
    }
    match listing_message(info, false, Err("denied".to_string())) {
        Msg::ReadingDirFailed(text) => assert_eq!(text, "denied"),
        _ => panic!("expected a failure"),
    }
}

#[test]
fn new_model_starts_with_one_session() {
    let m = model_at("/r");
    assert!(m.sessions[0].is_initialized());
    assert!(!m.sessions[1].is_initialized());
    assert_eq!(m.sessions.len(), 4);
    assert_eq!(m.current_session_index, 0);
    assert!(!m.terminal_too_small);
    let small = Model::new(p("/r"), TerminalDimensions::from((49, 30)), false);
    assert!(small.terminal_too_small);
    let cmds = initial_commands(&m);
    assert_eq!(cmds.len(), 1);
    let (index, path, nav) = read_dir(&cmds[0]);
    assert_eq!(index, 0);
    assert!(path == p("/r"));
    assert!(!nav);
}

#[test]
fn end_to_end_navigation_into_a_directory() {
    let mut m = model_at("/root");
    listed(
        &mut m,
        0,
        "/root",
        vec![entry("/root/a.txt", EntryKind::File), entry("/root/subdir", EntryKind::Directory)],
        false,
    );
    assert_eq!(selected(&m.sessions[0]), Some(0));
    update(&mut m, Msg::SelectNext);
    update(&mut m, Msg::SelectNext);
    assert_eq!(selected(&m.sessions[0]), Some(1));
    let cmds = update(&mut m, Msg::NavigateIntoDir);
    assert_eq!(cmds.len(), 1);
    let (index, path, nav) = read_dir(&cmds[0]);
    assert_eq!(index, 0);
    assert!(path == p("/root/subdir"));
    assert!(nav);
    let msg = listing_message(
        SessionInfo { index, path },
        nav,
        Ok(vec![entry("/root/subdir/z", EntryKind::File), entry("/root/subdir/b", EntryKind::Directory)]),
    );
    update(&mut m, msg);
    match &m.sessions[0] {
        Session::Initialized { path, .. } => assert!(*path == p("/root/subdir")),
        Session::Uninitialized => panic!("session closed"),
    }
    assert_eq!(names(&m.sessions[0]), vec!["b/", "z"]);
    assert_eq!(selected(&m.sessions[0]), Some(0));
}

#[test]
fn selection_saturates_at_both_ends() {
    let mut m = model_at("/r");
    listed(&mut m, 0, "/r", vec![entry("/r/a", EntryKind::File), entry("/r/b", EntryKind::File)], false);
    update(&mut m, Msg::SelectPrevious);
    assert_eq!(selected(&m.sessions[0]), Some(0));
    update(&mut m, Msg::SelectLast);
    assert_eq!(selected(&m.sessions[0]), Some(1));
    update(&mut m, Msg::SelectNext);
    assert_eq!(selected(&m.sessions[0]), Some(1));
    update(&mut m, Msg::SelectFirst);
    assert_eq!(selected(&m.sessions[0]), Some(0));
}

#[test]
fn empty_listing_keeps_no_cursor() {
    let mut m = model_at("/r");
    listed(&mut m, 0, "/r", vec![], false);
    update(&mut m, Msg::SelectNext);
    update(&mut m, Msg::SelectPrevious);
    update(&mut m, Msg::SelectLast);
    assert_eq!(selected(&m.sessions[0]), None);
    update(&mut m, Msg::MarkPath);
    assert!(m.marked_paths.is_empty());
}

#[test]
fn toggling_a_mark_twice_restores_the_mark_set() {
    let mut m = model_at("/r");
    listed(&mut m, 0, "/r", vec![entry("/r/a", EntryKind::File), entry("/r/b", EntryKind::File)], false);
    update(&mut m, Msg::MarkPath);
    assert_eq!(m.marked_paths.len(), 1);
    assert_eq!(selected(&m.sessions[0]), Some(1));
    assert_eq!(marked_flags(&m.sessions[0]), vec![true, false]);
    update(&mut m, Msg::SelectPrevious);
    update(&mut m, Msg::MarkPath);
    assert!(m.marked_paths.is_empty());
    assert_eq!(marked_flags(&m.sessions[0]), vec![false, false]);
    update(&mut m, Msg::SelectLast);
    update(&mut m, Msg::MarkPath);
    assert_eq!(selected(&m.sessions[0]), Some(1));
    update(&mut m, Msg::MarkPath);
    assert!(m.marked_paths.is_empty());
}

#[test]
fn sessions_on_one_path_are_refreshed_together() {
    let mut m = model_at("/r");
    listed(&mut m, 0, "/r", vec![entry("/r/a", EntryKind::File)], false);
    update(&mut m, Msg::GoToNextSession);
    assert_eq!(m.current_session_index, 1);
    assert!(m.sessions[1].is_initialized());
    listed(
        &mut m,
        0,
        "/r",
        vec![entry("/r/a", EntryKind::File), entry("/r/n", EntryKind::File)],
        false,
    );
    assert_eq!(names(&m.sessions[0]), vec!["a", "n"]);
    assert_eq!(names(&m.sessions[1]), vec!["a", "n"]);
}

#[test]
fn selection_is_restored_on_return() {
    let mut m = model_at("/r/d");
    listed(&mut m, 0, "/r/d", vec![entry("/r/d/x", EntryKind::File), entry("/r/d/y", EntryKind::File)], false);
    update(&mut m, Msg::SelectNext);
    let cmds = update(&mut m, Msg::NavigateOutOfDir);
    let (index, path, nav) = read_dir(&cmds[0]);
    assert!(path == p("/r"));
    listed(
        &mut m,
        index,
        "/r",
        vec![entry("/r/d", EntryKind::Directory), entry("/r/z", EntryKind::File)],
        nav,
    );
    assert_eq!(selected(&m.sessions[0]), Some(0));
    listed(&mut m, 0, "/r/d", vec![entry("/r/d/x", EntryKind::File), entry("/r/d/y", EntryKind::File)], true);
    assert_eq!(selected(&m.sessions[0]), Some(1));
}

#[test]
fn small_terminal_hears_only_quit_keys() {
    let mut m = model_at("/r");
    update(&mut m, Msg::TerminalResize(40, 30));
    assert!(m.terminal_too_small);
    assert_eq!(m.terminal_dimensions.width, 40);
    assert!(get_event_handling_msg(&m, key('j')).is_none());
    assert!(matches!(get_event_handling_msg(&m, key('q')), Some(Msg::GoBackOrQuit)));
    update(&mut m, Msg::TerminalResize(80, 23));
    assert!(m.terminal_too_small);
    update(&mut m, Msg::TerminalResize(50, 24));
    assert!(!m.terminal_too_small);
    assert!(matches!(get_event_handling_msg(&m, key('j')), Some(Msg::SelectNext)));
    assert!(matches!(
        get_event_handling_msg(&m, InputEvent::Resize(3, 4)),
        Some(Msg::TerminalResize(3, 4))
    ));
}

#[test]
fn key_bindings_depend_on_pane_and_marks() {
    let mut m = model_at("/r");
    listed(&mut m, 0, "/r", vec![entry("/r/a", EntryKind::File)], false);
    assert!(get_event_handling_msg(&m, key('p')).is_none());
    assert!(matches!(get_event_handling_msg(&m, key('3')), Some(Msg::GoToSession(2))));
    let ctrl_c = InputEvent::Key(KeyInput { code: KeyCode::Char('c'), control_only: true, is_press: true });
    assert!(matches!(get_event_handling_msg(&m, ctrl_c), Some(Msg::QuitImmediately)));
    let release = InputEvent::Key(KeyInput { code: KeyCode::Down, control_only: false, is_press: false });
    assert!(get_event_handling_msg(&m, release).is_none());
    update(&mut m, Msg::MarkPath);
    assert!(matches!(get_event_handling_msg(&m, key('p')), Some(Msg::CopyMarkedItems)));
    assert!(matches!(get_event_handling_msg(&m, key('v')), Some(Msg::MoveMarkedItems)));
    let msg = get_event_handling_msg(&m, key('?')).unwrap();
    update(&mut m, msg);
    assert_eq!(m.active_pane, Pane::Help);
    assert!(get_event_handling_msg(&m, key('j')).is_none());
    assert!(matches!(get_event_handling_msg(&m, key('?')), Some(Msg::GoBackOrQuit)));
    update(&mut m, Msg::GoBackOrQuit);
    assert_eq!(m.active_pane, Pane::Explorer);
    assert_eq!(m.marked_paths.len(), 1);
}

#[test]
fn going_back_clears_marks_then_closes_sessions() {
    let mut m = model_at("/r");
    listed(&mut m, 0, "/r", vec![entry("/r/a", EntryKind::File)], false);
    update(&mut m, Msg::GoToSession(2));
    assert_eq!(m.current_session_index, 2);
    update(&mut m, Msg::MarkPath);
    update(&mut m, Msg::GoBackOrQuit);
    assert!(m.marked_paths.is_empty());
    assert_eq!(marked_flags(&m.sessions[2]), vec![false]);
    assert_eq!(m.current_session_index, 2);
    update(&mut m, Msg::GoBackOrQuit);
    assert!(!m.sessions[2].is_initialized());
    assert_eq!(m.current_session_index, 0);
    assert_eq!(m.running_state, RunningState::Running);
    update(&mut m, Msg::GoBackOrQuit);
    assert_eq!(m.running_state, RunningState::Done);
}

#[test]
fn session_cycling_skips_empty_slots() {
    let mut m = model_at("/r");
    update(&mut m, Msg::GoToPreviousSession);
    assert_eq!(m.current_session_index, 0);
    update(&mut m, Msg::GoToSession(3));
    update(&mut m, Msg::GoToNextSession);
    assert_eq!(m.current_session_index, 0);
    update(&mut m, Msg::GoToPreviousSession);
    assert_eq!(m.current_session_index, 3);
    update(&mut m, Msg::GoToSession(7));
    assert_eq!(m.current_session_index, 3);
}

#[test]
fn navigation_errors_become_messages() {
    let mut m = model_at("/");
    listed(&mut m, 0, "/", vec![entry("/a", EntryKind::File)], false);
    let cmds = update(&mut m, Msg::NavigateOutOfDir);
    assert!(cmds.is_empty());
    let msg = m.user_msg.as_ref().unwrap();
    assert_eq!(msg.value, "no parent found");
    assert_eq!(msg.kind, MessageKind::Error);
    assert_eq!(msg.frames_left, 3);
    assert!(update(&mut m, Msg::NavigateIntoDir).is_empty());
    update(&mut m, Msg::ReadingDirFailed("boom".to_string()));
    assert_eq!(m.user_msg.as_ref().unwrap().value, "reading directory failed: boom");
}

#[test]
fn messages_expire_after_their_frames() {
    let mut m = model_at("/r");
    update(&mut m, Msg::ReadingDirFailed("x".to_string()));
    for _ in 0..3 {
        update(&mut m, Msg::SelectNext);
        assert!(m.user_msg.is_some());
    }
    update(&mut m, Msg::SelectNext);
    assert!(m.user_msg.is_none());
}

#[test]
fn copying_targets_the_current_directory() {
    let mut m = model_at("/r");
    listed(&mut m, 0, "/r", vec![entry("/r/a", EntryKind::File)], false);
    assert!(update(&mut m, Msg::CopyMarkedItems).is_empty());
    update(&mut m, Msg::MarkPath);
    let cmds = update(&mut m, Msg::MoveMarkedItems);
    assert_eq!(cmds.len(), 1);
    match &cmds[0] {
        Cmd::RunFSOperation(FSOperation::Move { items, destination }) => {
            assert_eq!(items.len(), 1);
            assert_eq!(items[0].path_str(), "a");
            assert!(*destination == p("/r"));
        }
        _ => panic!("expected a move"),
    }
    let cmds = update(&mut m, Msg::CopyMarkedItems);
    assert!(matches!(&cmds[0], Cmd::RunFSOperation(FSOperation::Copy { .. })));
}

#[test]
fn finished_operation_clears_marks_and_relists() {
    let mut m = model_at("/r");
    listed(&mut m, 0, "/r", vec![entry("/r/a", EntryKind::File)], false);
    update(&mut m, Msg::MarkPath);
    update(&mut m, Msg::GoToNextSession);
    update(&mut m, Msg::GoToSession(2));
    let cmds = update(&mut m, Msg::FSOperationFinished(Err("disk full".to_string())));
    assert!(m.marked_paths.is_empty());
    assert_eq!(m.user_msg.as_ref().unwrap().value, "disk full");
    assert_eq!(cmds.len(), 1);
    let (index, path, nav) = read_dir(&cmds[0]);
    assert_eq!(index, 0);
    assert!(path == p("/r"));
    assert!(!nav);
    let cmds = update(&mut m, Msg::FSOperationFinished(Ok(())));
    assert_eq!(cmds.len(), 1);
}

#[test]
fn help_text_and_pane_names() {
    assert!(get_help_content().contains("quit"));
    assert_eq!(Pane::Explorer.name(), "explorer");
    assert_eq!(Pane::Help.name(), "help");
}

#[test]
fn user_messages_carry_their_kind_and_frames() {
    let m = UserMsg::info("hello".to_string()).with_frames_left(9);
    assert_eq!(m.frames_left, 9);
    assert_eq!(m.kind, MessageKind::Info);
    assert_eq!(m.value, "hello");
    let e = UserMsg::internal_error();
    assert_eq!(e.kind, MessageKind::Error);
    assert_eq!(e.frames_left, 4);
    let mut d = TerminalDimensions { width: 1, height: 2 };
    d.update(7, 8);
    assert_eq!((d.width, d.height), (7, 8));
}

#[test]
fn sorting_follows_the_kind_order_example() {
    let entries = vec![
        entry("/w/file.txt", EntryKind::File),
        entry("/w/src", EntryKind::Directory),
        entry("/w/.git", EntryKind::Directory),
        entry("/w/link", EntryKind::Symlink),
    ];
    let names = sort_entries(entries).iter().map(|e| e.path_str()).collect::<Vec<_>>();
    assert_eq!(names, vec![".git/", "src/", "link", "file.txt"]);
}

#[test]
fn stale_cursor_mark_reports_an_internal_error() {
    let mut m = model_at("/r");
    m.sessions[0] = Session::Initialized {
        path: p("/r"),
        entries: vec![],
        selected: Some(3),
    };
    m.toggle_path_marked_status();
    let msg = m.user_msg.as_ref().unwrap();
    assert_eq!(msg.kind, MessageKind::Error);
    assert_eq!(msg.frames_left, 4);
    assert_eq!(msg.value, UserMsg::internal_error().value);
    assert!(m.marked_paths.is_empty());
    assert_eq!(selected(&m.sessions[0]), Some(3));
}

#[test]
fn navigation_remembers_the_addressed_slot_selection() {
    let mut m = model_at("/r/d");
    listed(&mut m, 0, "/r/d", vec![entry("/r/d/x", EntryKind::File), entry("/r/d/y", EntryKind::File)], false);
    update(&mut m, Msg::SelectNext);
    let cmds = update(&mut m, Msg::NavigateOutOfDir);
    let (index, path, nav) = read_dir(&cmds[0]);
    update(&mut m, Msg::GoToSession(1));
    update(&mut m, Msg::GoToSession(2));
    update(&mut m, Msg::SelectPrevious);
    assert_eq!(m.current_session_index, 2);
    assert_eq!(selected(&m.sessions[2]), Some(0));
    let msg = Msg::DirectoryRead {
        session_info: SessionInfo { index, path },
        entries: vec![entry("/r/d", EntryKind::Directory)],
        navigated_to: nav,
    };
    update(&mut m, msg);
    update(&mut m, Msg::GoToSession(0));
    listed(&mut m, 0, "/r/d", vec![entry("/r/d/x", EntryKind::File), entry("/r/d/y", EntryKind::File)], true);
    assert_eq!(selected(&m.sessions[0]), Some(1));
}

#[test]
fn late_listing_replaces_the_addressed_slot() {
    let mut m = model_at("/r");
    listed(&mut m, 0, "/r", vec![entry("/r/a", EntryKind::File)], false);
    listed(&mut m, 0, "/elsewhere", vec![entry("/elsewhere/b", EntryKind::File)], false);
    match &m.sessions[0] {
        Session::Initialized { path, .. } => assert!(*path == p("/elsewhere")),
        Session::Uninitialized => panic!("session closed"),
    }
    assert_eq!(names(&m.sessions[0]), vec!["b"]);
    assert_eq!(selected(&m.sessions[0]), Some(0));
}

#[test]
fn relisted_items_keep_their_marks() {
    let mut m = model_at("/r");
    listed(&mut m, 0, "/r", vec![entry("/r/a", EntryKind::File), entry("/r/b", EntryKind::File)], false);
    update(&mut m, Msg::MarkPath);
    listed(
        &mut m,
        0,
        "/r",
        vec![entry("/r/a", EntryKind::File), entry("/r/b", EntryKind::File), entry("/r/c", EntryKind::File)],
        false,
    );
    assert_eq!(m.marked_paths.len(), 1);
    assert_eq!(marked_flags(&m.sessions[0]), vec![true, false, false]);
}
