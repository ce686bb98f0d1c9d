use cyberdeck_tui::editor::{
    after_save, apply_reload, buffer_lines, read_only_verdict, reload_or_confirm, save_text,
    EditorAction, EditorScreen, EditorState, ReadOnlyReason,
};
use cyberdeck_tui::files::{
    arrange_listing, refresh, refresh_right, FilesAction, FilesScreen, FilesScreenV2,
};
use cyberdeck_tui::lines::{lines_of, names_le, sort_by_name, DirEntry};
use cyberdeck_tui::nav_screens::NavRequest;
use cyberdeck_tui::ui::{ConfirmKind, Consumed, InputKind, Key, Modal, NavEvent};

fn entry(name: &str, is_dir: bool) -> DirEntry {
    DirEntry { name: name.to_string(), path: format!("/d/{name}"), is_dir, size: 1 }
}

fn names(v: &[DirEntry]) -> Vec<String> {
    v.iter().map(|e| e.name.clone()).collect()
}

fn state(dirty: bool, read_only: bool) -> EditorState {
    EditorState {
        path: "/tmp/notes.txt".to_string(),
        buffer: vec!["second".to_string()],
        dirty,
        read_only,
        status: None,
    }
}

// ─── Listings ──────────────────────────────────────────────────────────

#[test]
fn names_order_by_code_point_with_prefix_first() {
    assert!(names_le("abc", "abd"));
    assert!(names_le("ab", "abc"));
    assert!(!names_le("abc", "ab"));
    assert!(names_le("Zeta", "alpha"));
    assert!(names_le("same", "same"));
}

#[test]
fn listing_puts_directories_first_and_hides_dot_files() {
    let raw = vec![
        entry("zeta.txt", false),
        entry(".hidden", false),
        entry("src", true),
        entry("Cargo.toml", false),
        entry(".git", true),
        entry("docs", true),
    ];
    let shown = arrange_listing(raw, false);
    assert_eq!(names(&shown), vec!["docs", "src", "Cargo.toml", "zeta.txt"]);
    let raw = vec![entry("b", false), entry(".a", false), entry(".git", true)];
    assert_eq!(names(&arrange_listing(raw, true)), vec![".git", ".a", "b"]);
    let sorted = sort_by_name(vec![entry("b", false), entry("a", false), entry("c", false)]);
    assert_eq!(names(&sorted), vec!["a", "b", "c"]);
}

#[test]
fn refresh_keeps_the_cursor_on_the_list() {
    let mut selected = 9usize;
    let listed = refresh(&mut selected, vec![entry("a", false), entry("b", true)], false);
    assert_eq!(names(&listed), vec!["b", "a"]);
    assert_eq!(selected, 1);
    let listed = refresh(&mut selected, Vec::new(), false);
    assert!(listed.is_empty());
    assert_eq!(selected, 0);
    assert_eq!(names(&refresh_right(vec![entry("y", false), entry("x", false)], false)), vec!["x", "y"]);
}

#[test]
fn files_keys_open_peek_and_climb() {
    let entries = vec![entry("docs", true), entry("a.txt", false)];
    let mut selected = 0usize;
    match FilesScreen.on_key(&mut selected, &entries, true, false, Key::Enter) {
        (true, FilesAction::OpenDir(p)) => assert_eq!(p, "/d/docs"),
        _ => panic!("expected the directory to open"),
    }
    assert_eq!(selected, 0);
    FilesScreen.on_key(&mut selected, &entries, true, false, Key::Char('j'));
    assert_eq!(selected, 1);
    match FilesScreen.on_key(&mut selected, &entries, true, false, Key::Char('l')) {
        (true, FilesAction::Peek(p)) => assert_eq!(p, "/d/a.txt"),
        _ => panic!("expected a peek"),
    }
    assert_eq!(selected, 1);
    assert!(matches!(
        FilesScreen.on_key(&mut selected, &entries, true, false, Key::Left),
        (true, FilesAction::ParentDir)
    ));
    assert_eq!(selected, 0);
    assert!(matches!(
        FilesScreen.on_key(&mut selected, &entries, false, false, Key::Char('h')),
        (true, FilesAction::Stay)
    ));
    match FilesScreen.on_key(&mut selected, &entries, true, false, Key::Char('e')) {
        (true, FilesAction::Status(m)) => assert_eq!(m, "editor: not a regular file"),
        _ => panic!("expected a status message"),
    }
    assert!(matches!(
        FilesScreen.on_key(&mut selected, &entries, true, true, Key::Char('e')),
        (true, FilesAction::OpenEditor)
    ));
    assert!(matches!(
        FilesScreen.on_key(&mut selected, &entries, true, true, Key::Char('x')),
        (false, FilesAction::Stay)
    ));
}

#[test]
fn files_v2_lists_parent_then_directories_then_files() {
    let mut s = FilesScreenV2::new("/home/me");
    s.load_entries(true, vec![entry("b.txt", false), entry("music", true), entry("a.txt", false)]);
    let rows: Vec<(String, bool)> = s.entries.clone();
    assert_eq!(
        rows,
        vec![
            ("..".to_string(), true),
            ("music".to_string(), true),
            ("a.txt".to_string(), false),
            ("b.txt".to_string(), false)
        ]
    );
    assert!(matches!(s.enter_selected(), NavRequest::ParentDir));
    s.on_nav(NavEvent::Down, true);
    match s.on_nav(NavEvent::Confirm, true) {
        (Consumed::Yes, NavRequest::OpenDir(n)) => assert_eq!(n, "music"),
        _ => panic!("expected to enter the directory"),
    }
    s.on_nav(NavEvent::Down, true);
    assert!(matches!(s.on_nav(NavEvent::Confirm, true), (Consumed::Yes, NavRequest::Stay)));
    assert!(matches!(s.on_nav(NavEvent::Back, true), (Consumed::Yes, NavRequest::ParentDir)));
    assert!(matches!(s.on_nav(NavEvent::Back, false), (Consumed::Yes, NavRequest::GoBack)));
}

// ─── Editor ────────────────────────────────────────────────────────────

#[test]
fn enter_into_editor_loads_text_file() {
    assert_eq!(buffer_lines("alpha\nbeta\ngamma\n"), vec!["alpha", "beta", "gamma"]);
    assert_eq!(buffer_lines("a\r\r\nb"), vec!["a", "b"]);
    assert_eq!(buffer_lines(""), vec![""]);
    assert_eq!(buffer_lines("\n"), vec![""]);
    assert_eq!(lines_of("x\ny\n"), vec!["x", "y"]);
}

#[test]
fn ctrl_s_writes_buffer_to_disk() {
    let mut st = state(true, false);
    match EditorScreen.on_key(&st, Key::Char('s'), true) {
        (true, EditorAction::Save(body)) => assert_eq!(body, "second\n"),
        _ => panic!("Ctrl-S must ask to save"),
    }
    after_save(&mut st, Ok(()));
    assert!(!st.dirty, "Ctrl-S must clear the dirty flag");
    assert_eq!(st.status.as_deref(), Some("saved"));
    after_save(&mut st, Err("disk full".to_string()));
    assert!(st.dirty);
    assert_eq!(st.status.as_deref(), Some("editor: save failed (disk full)"));
    let ro = state(true, true);
    assert!(matches!(EditorScreen.on_key(&ro, Key::Char('s'), true), (true, EditorAction::Stay)));
    assert_eq!(save_text(&vec!["a".to_string(), "".to_string(), "b".to_string()]), "a\n\nb\n");
}

#[test]
fn esc_on_dirty_opens_discard_confirm() {
    let st = state(true, false);
    match EditorScreen.on_key(&st, Key::Esc, false) {
        (true, EditorAction::Open(Modal::Confirm { kind, arg, .. })) => {
            assert_eq!(kind, ConfirmKind::Discard);
            assert_eq!(arg, "/tmp/notes.txt");
        }
        _ => panic!("expected Modal::Confirm (Discard)"),
    }
    let clean = state(false, false);
    assert!(matches!(EditorScreen.on_key(&clean, Key::Esc, false), (true, EditorAction::BackToFiles)));
}

#[test]
fn save_as_and_reload_keys() {
    let st = state(false, false);
    match EditorScreen.on_key(&st, Key::Char('S'), false) {
        (true, EditorAction::Open(Modal::Input { prompt, buf, kind })) => {
            assert_eq!(prompt, "Save as:");
            assert_eq!(buf, "/tmp/notes.txt");
            assert_eq!(kind, InputKind::EditorSaveAs);
        }
        _ => panic!("expected the save-as prompt"),
    }
    assert!(matches!(EditorScreen.on_key(&st, Key::F(5), false), (true, EditorAction::Reload)));
    assert!(matches!(EditorScreen.on_key(&st, Key::Char('r'), true), (true, EditorAction::Reload)));
    assert!(matches!(EditorScreen.on_key(&st, Key::Char('r'), false), (false, EditorAction::Stay)));
    assert!(matches!(reload_or_confirm(&state(true, false)), EditorAction::Open(Modal::Confirm { .. })));
    let mut st = state(true, false);
    apply_reload(&mut st, Ok("one\ntwo\n".to_string()));
    assert_eq!(st.buffer, vec!["one", "two"]);
    assert!(!st.dirty);
    assert_eq!(st.status.as_deref(), Some("reloaded"));
    apply_reload(&mut st, Err("gone".to_string()));
    assert_eq!(st.buffer, vec!["one", "two"]);
    assert_eq!(st.status.as_deref(), Some("editor: reload failed (gone)"));
}

#[test]
fn save_then_reload_gives_the_buffer_back() {
    let buffer = vec!["first".to_string(), "".to_string(), "third line".to_string()];
    assert_eq!(buffer_lines(&save_text(&buffer)), buffer);
}

#[test]
fn read_only_when_file_too_large() {
    assert_eq!(read_only_verdict(Some(1024 * 1024 + 1), None), (true, ReadOnlyReason::TooLarge));
    assert_eq!(read_only_verdict(Some(1024 * 1024), Some(b"ok")), (false, ReadOnlyReason::NoReason));
    assert_eq!(read_only_verdict(None, None), (true, ReadOnlyReason::NoReason));
    assert_eq!(read_only_verdict(Some(0), Some(b"")), (false, ReadOnlyReason::NoReason));
}

#[test]
fn read_only_when_binary() {
    let mut blob: Vec<u8> = Vec::with_capacity(1024);
    for i in 0..1024 {
        blob.push(if i % 2 == 0 { 0 } else { b'a' });
    }
    assert_eq!(read_only_verdict(Some(1024), Some(&blob)), (true, ReadOnlyReason::Binary));
    // One byte in twenty exactly is still text; one more tips it over.
    let mut edge = vec![b'x'; 20];
    edge[0] = 0;
    assert_eq!(read_only_verdict(Some(20), Some(&edge)), (false, ReadOnlyReason::NoReason));
    edge[1] = 1;
    assert_eq!(read_only_verdict(Some(20), Some(&edge)), (true, ReadOnlyReason::Binary));
    assert_eq!(read_only_verdict(Some(3), Some(b"a\t\n")), (false, ReadOnlyReason::NoReason));
}

#[test]
fn sort_by_name_keeps_equal_names_in_their_order() {
    let first = entry("b", false);
    let mut second = entry("b", false);
    second.size = 2;
    let sorted = sort_by_name(vec![first, entry("a", false), second]);
    let got: Vec<(String, u64)> = sorted.iter().map(|e| (e.name.clone(), e.size)).collect();
    assert_eq!(
        got,
        vec![("a".to_string(), 1), ("b".to_string(), 1), ("b".to_string(), 2)]
    );
}
