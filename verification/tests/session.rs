use dwx::bus::WorkerEvent;
use dwx::editor::{viewer_key, ViewerStep};
use dwx::keys::Key;
use dwx::tree::{FileItem, MillerState};
use dwx::ui::{
    column_widths, cut_regions, display_name, entry_color, omnibar_fill, visible_entries, EntryColor,
};
use dwx::workspaces::{
    jump_target, name_matches_query, AppMode, CreateKind, JumpTarget, MainAction, MountGuard,
    selection_target, Preview, PreviewSource, PreviewTarget, Workspace,
};

fn item(path: &str, is_dir: bool) -> FileItem {
    FileItem::from_path(path.to_string(), is_dir, !is_dir, false, false)
}

fn session() -> Workspace {
    Workspace::new(
        "/d".to_string(),
        vec![item("/d/b.txt", false), item("/d/sub", true), item("/d/pack.tar.gz", false)],
        vec![],
        PreviewSource::Nothing,
    )
}

fn bar(ws: &Workspace) -> Option<(char, String)> {
    match &ws.mode {
        AppMode::Normal => None,
        AppMode::Omnibar { prefix, input_buffer } => Some((*prefix, input_buffer.clone())),
    }
}

fn press(ws: &mut Workspace, key: Key) -> MainAction {
    assert!(ws.key_ready(key));
    ws.handle_key(key, true, "b.txt")
}

#[test]
fn new_session_starts_in_normal_mode() {
    let ws = session();
    assert!(bar(&ws).is_none());
    assert_eq!(ws.active_pane, 1);
    assert_eq!(ws.search_id, 0);
    assert_eq!(ws.current_perms, "rwxr-xr-x");
    assert!(matches!(ws.preview, Preview::Empty));
    assert_eq!(ws.miller.current_entries.len(), 3);
}

#[test]
fn movement_keys_ask_the_loop() {
    let mut ws = session();
    assert!(matches!(press(&mut ws, Key::Char('j')), MainAction::MoveDown));
    assert!(matches!(press(&mut ws, Key::Down), MainAction::MoveDown));
    assert!(matches!(press(&mut ws, Key::Char('k')), MainAction::MoveUp));
    assert!(matches!(press(&mut ws, Key::Char('l')), MainAction::EnterDir));
    assert!(matches!(press(&mut ws, Key::Char(' ')), MainAction::EnterDir));
    assert!(matches!(press(&mut ws, Key::Char('h')), MainAction::GoParent));
    assert!(matches!(press(&mut ws, Key::Backspace), MainAction::GoParent));
    assert!(matches!(press(&mut ws, Key::F(5)), MainAction::Refresh));
    assert!(matches!(press(&mut ws, Key::Enter), MainAction::OpenViewer));
    assert!(matches!(ws.handle_key(Key::Enter, false, "sub"), MainAction::Redraw));
    assert!(matches!(press(&mut ws, Key::Char('q')), MainAction::Quit));
}

#[test]
fn go_to_sequences() {
    let mut ws = session();
    press(&mut ws, Key::Char('g'));
    assert!(ws.pending_g);
    assert!(matches!(press(&mut ws, Key::Char('h')), MainAction::Jump(JumpTarget::Home)));
    assert!(!ws.pending_g);
    press(&mut ws, Key::Char('g'));
    assert!(matches!(press(&mut ws, Key::Char('a')), MainAction::Jump(JumpTarget::Audio)));
    press(&mut ws, Key::Char('g'));
    assert!(matches!(press(&mut ws, Key::Char('r')), MainAction::Jump(JumpTarget::Root)));
    press(&mut ws, Key::Char('g'));
    assert!(matches!(press(&mut ws, Key::Char('y')), MainAction::Redraw));
    assert!(!ws.pending_g);
    assert_eq!(jump_target(Key::Char('x')), Some(JumpTarget::Downloads));
    assert_eq!(jump_target(Key::Char('d')), Some(JumpTarget::Documents));
    assert_eq!(jump_target(Key::Char('p')), Some(JumpTarget::Pictures));
    assert_eq!(jump_target(Key::Char('v')), Some(JumpTarget::Videos));
    assert_eq!(jump_target(Key::Char('c')), Some(JumpTarget::Config));
    assert_eq!(jump_target(Key::Esc), None);
}

#[test]
fn rename_flow() {
    let mut ws = session();
    assert!(matches!(press(&mut ws, Key::F(2)), MainAction::Redraw));
    assert_eq!(bar(&ws), Some(('*', "b.txt".to_string())));
    press(&mut ws, Key::Backspace);
    press(&mut ws, Key::Backspace);
    press(&mut ws, Key::Backspace);
    press(&mut ws, Key::Char('m'));
    press(&mut ws, Key::Char('d'));
    assert_eq!(bar(&ws), Some(('*', "b.md".to_string())));
    match press(&mut ws, Key::Enter) {
        MainAction::Rename { from, to } => {
            assert_eq!(from, "b.txt");
            assert_eq!(to, "b.md");
        }
        _ => panic!("expected a rename"),
    }
    assert!(bar(&ws).is_none());
    assert!(matches!(ws.handle_key(Key::F(2), false, "sub"), MainAction::Redraw));
    assert!(bar(&ws).is_none());
}

#[test]
fn live_filter_and_cancel() {
    let mut ws = session();
    press(&mut ws, Key::Char('/'));
    assert!(matches!(press(&mut ws, Key::Char('T')), MainAction::ClearScreen));
    assert_eq!(ws.miller.filtered_indices, vec![1, 2]);
    press(&mut ws, Key::Char('x'));
    assert_eq!(ws.miller.filtered_indices, vec![1]);
    press(&mut ws, Key::Backspace);
    press(&mut ws, Key::Backspace);
    assert_eq!(ws.miller.filtered_indices, vec![0, 1, 2]);
    press(&mut ws, Key::Char('s'));
    assert!(matches!(press(&mut ws, Key::Esc), MainAction::UpdatePreview));
    assert!(bar(&ws).is_none());
    assert_eq!(ws.miller.filtered_indices, vec![0, 1, 2]);
}

#[test]
fn deep_search_request() {
    let mut ws = session();
    press(&mut ws, Key::Char('?'));
    match press(&mut ws, Key::Char('r')) {
        MainAction::DeepSearch { query, dir, search_id } => {
            assert_eq!(query, "r");
            assert_eq!(dir, "/d");
            assert_eq!(search_id, 1);
        }
        _ => panic!("expected a deep search"),
    }
    assert!(ws.miller.current_entries.is_empty());
    assert!(ws.miller.filtered_indices.is_empty());
    match press(&mut ws, Key::Char('e')) {
        MainAction::DeepSearch { query, search_id, .. } => {
            assert_eq!(query, "re");
            assert_eq!(search_id, 2);
        }
        _ => panic!("expected a deep search"),
    }
    ws.search_id = usize::MAX;
    assert!(!ws.key_ready(Key::Char('x')));
    assert!(ws.key_ready(Key::Esc));
}

#[test]
fn stale_search_batches_are_ignored() {
    let mut ws = session();
    press(&mut ws, Key::Char('?'));
    press(&mut ws, Key::Char('b'));
    ws.poll_bus(vec![
        WorkerEvent::SearchResultBatch { items: vec![item("/d/old", false)], search_id: 0 },
        WorkerEvent::SearchResultBatch { items: vec![item("/d/b.txt", false), item("/d/sub/b", false)], search_id: 1 },
        WorkerEvent::SearchResultBatch { items: vec![item("/d/x", false)], search_id: 7 },
    ]);
    let names: Vec<String> = ws.miller.current_entries.iter().map(|e| e.name.clone()).collect();
    assert_eq!(names, vec!["b.txt", "b"]);
    assert_eq!(ws.miller.filtered_indices, vec![0, 1]);
    ws.poll_bus(vec![WorkerEvent::SearchResultBatch { items: vec![item("/d/y", false)], search_id: 0 }]);
    assert_eq!(ws.miller.current_entries.len(), 2);
}

#[test]
fn creation_after_n() {
    let mut ws = session();
    press(&mut ws, Key::Char('n'));
    assert!(ws.pending_create);
    press(&mut ws, Key::Char('d'));
    assert!(!ws.pending_create && ws.pending_create_dir);
    assert_eq!(bar(&ws), Some(('+', String::new())));
    press(&mut ws, Key::Char('n'));
    press(&mut ws, Key::Char('e'));
    match press(&mut ws, Key::Enter) {
        MainAction::Create { kind, name } => {
            assert_eq!(kind, CreateKind::Dir);
            assert_eq!(name, "ne");
        }
        _ => panic!("expected a creation"),
    }
    assert!(!ws.pending_create_dir);
    press(&mut ws, Key::Char('n'));
    press(&mut ws, Key::Char('s'));
    assert!(ws.pending_create_symlink);
    press(&mut ws, Key::Char('l'));
    assert!(matches!(press(&mut ws, Key::Esc), MainAction::ClearScreen));
    assert!(!ws.pending_create_symlink);
    press(&mut ws, Key::Char('n'));
    press(&mut ws, Key::Char('h'));
    assert!(ws.pending_create_hardlink);
    match press(&mut ws, Key::Enter) {
        MainAction::Create { kind, name } => {
            assert_eq!(kind, CreateKind::Hardlink);
            assert_eq!(name, "");
        }
        _ => panic!("expected a creation"),
    }
    press(&mut ws, Key::Char('n'));
    press(&mut ws, Key::Char('z'));
    assert!(!ws.pending_create);
    press(&mut ws, Key::Char('p'));
    assert_eq!(bar(&ws), Some(('+', String::new())));
    assert!(matches!(press(&mut ws, Key::Enter), MainAction::ClearScreen));
}

#[test]
fn preview_targets_follow_the_selection() {
    let mut ws = session();
    match ws.preview_target() {
        PreviewTarget::Dir(p) => assert_eq!(p, "/d/sub"),
        _ => panic!(),
    }
    assert!(ws.move_down(10));
    assert!(matches!(ws.preview, Preview::Empty));
    match ws.preview_target() {
        PreviewTarget::Text(p) => assert_eq!(p, "/d/b.txt"),
        _ => panic!(),
    }
    assert!(ws.move_down(10));
    match ws.preview_target() {
        PreviewTarget::Archive(p) => assert_eq!(p, "/d/pack.tar.gz"),
        _ => panic!(),
    }
    assert!(!ws.move_down(10));
    assert!(ws.move_up());
    ws.miller.filter("nothing matches");
    assert!(matches!(ws.preview_target(), PreviewTarget::Nothing));
}

#[test]
fn preview_contents() {
    let mut ws = session();
    ws.update_preview(PreviewSource::DirEntries(vec![item("/s/b", false), item("/s/a", true)]));
    match &ws.preview {
        Preview::Dir(es) => assert_eq!(es.iter().map(|e| e.name.as_str()).collect::<Vec<_>>(), vec!["a", "b"]),
        _ => panic!(),
    }
    let text: String = (0..60).map(|i| format!("l{}\n", i)).collect();
    ws.update_preview(PreviewSource::Text(text));
    match &ws.preview {
        Preview::File(ls) => {
            assert_eq!(ls.len(), 50);
            assert_eq!(ls[49], "l49");
        }
        _ => panic!(),
    }
    ws.update_preview(PreviewSource::ArchiveEntries(vec!["dir/".to_string(), "dir/f".to_string()]));
    match &ws.preview {
        Preview::Dir(es) => {
            assert_eq!(es.len(), 2);
            assert_eq!(es[1].path, "dir/f");
            assert_eq!(es[1].name, "dir/f");
            assert!(es[1].is_file && !es[1].is_dir);
        }
        _ => panic!(),
    }
    ws.update_preview(PreviewSource::Unreadable { is_executable: true });
    match &ws.preview {
        Preview::File(ls) => assert_eq!(ls, &vec!["Bin file...".to_string()]),
        _ => panic!(),
    }
    ws.update_preview(PreviewSource::Unreadable { is_executable: false });
    assert!(matches!(ws.preview, Preview::Empty));
    ws.update_preview(PreviewSource::Nothing);
    assert!(matches!(ws.preview, Preview::Empty));
}

#[test]
fn entering_and_leaving_drop_the_preview() {
    let mut ws = session();
    ws.update_preview(PreviewSource::Unreadable { is_executable: true });
    ws.enter_dir(vec![item("/d/sub/x", false)], vec![]);
    assert!(matches!(ws.preview, Preview::Empty));
    assert_eq!(ws.miller.current_dir, "/d/sub");
    ws.go_parent(vec![item("/d/sub", true)], vec![]);
    assert_eq!(ws.miller.current_dir, "/d");
    assert_eq!(ws.miller.selected_index, 0);
}

#[test]
fn deep_search_matching_ignores_case() {
    assert!(name_matches_query("README.md", "readme"));
    assert!(name_matches_query("ÉTÉ.txt", "été"));
    assert!(!name_matches_query("main.rs", "lib"));
    assert!(name_matches_query("x", ""));
}

#[test]
fn mount_guard_remembers_its_mount_point() {
    let g = MountGuard::new("/tmp/dwx_ssh_mnt");
    assert_eq!(g.mount_point_path(), "/tmp/dwx_ssh_mnt");
}

#[test]
fn viewer_scrolling() {
    assert_eq!(viewer_key(0, Key::Char('q'), 10, 100), ViewerStep::Quit);
    assert_eq!(viewer_key(0, Key::Esc, 10, 100), ViewerStep::Quit);
    assert_eq!(viewer_key(0, Key::Char('j'), 10, 100), ViewerStep::Show(1));
    assert_eq!(viewer_key(90, Key::Down, 10, 100), ViewerStep::Show(90));
    assert_eq!(viewer_key(0, Key::Char('k'), 10, 100), ViewerStep::Show(0));
    assert_eq!(viewer_key(5, Key::Up, 10, 100), ViewerStep::Show(4));
    assert_eq!(viewer_key(0, Key::Char('d'), 10, 100), ViewerStep::Show(5));
    assert_eq!(viewer_key(88, Key::Char('d'), 10, 100), ViewerStep::Show(90));
    assert_eq!(viewer_key(3, Key::Char('d'), 10, 4), ViewerStep::Show(0));
    assert_eq!(viewer_key(3, Key::Char('u'), 10, 100), ViewerStep::Show(0));
    assert_eq!(viewer_key(30, Key::Char('u'), 10, 100), ViewerStep::Show(25));
    assert_eq!(viewer_key(30, Key::Char('x'), 10, 100), ViewerStep::Show(30));
}

#[test]
fn column_layout() {
    assert_eq!(column_widths(100), (20, 30));
    assert_eq!(column_widths(80), (16, 24));
    assert_eq!(column_widths(5), (1, 2));
    assert_eq!(column_widths(7), (1, 2));
    assert_eq!(column_widths(0), (0, 0));
    for cols in [1u16, 13, 15, 25, 99, 123, 211, 1000, 65535] {
        let expected = (
            ((cols as f32) * 0.20).round() as u16,
            ((cols as f32) * 0.30).round() as u16,
        );
        assert_eq!(column_widths(cols), expected);
    }
}

#[test]
fn bottom_bar_padding() {
    assert_eq!(omnibar_fill(80, 6), 70);
    assert_eq!(omnibar_fill(10, 6), 0);
    assert_eq!(omnibar_fill(10, 100), 0);
    assert_eq!(omnibar_fill(11, 6), 1);
}

#[test]
fn region_cutting() {
    let r = cut_regions(&vec![3, 4, 5], 20);
    assert_eq!((r.full, r.cut), (3, None));
    let r = cut_regions(&vec![3, 4, 5], 10);
    assert_eq!((r.full, r.cut), (2, Some(2)));
    let r = cut_regions(&vec![3, 4, 5], 8);
    assert_eq!((r.full, r.cut), (2, Some(0)));
    let r = cut_regions(&vec![30], 8);
    assert_eq!((r.full, r.cut), (0, Some(7)));
    let r = cut_regions(&vec![], 0);
    assert_eq!((r.full, r.cut), (0, None));
}

#[test]
fn entry_colors_and_names() {
    let mut f = item("/d/run.sh", false);
    assert_eq!(entry_color(&f), EntryColor::White);
    f.is_symlink = true;
    assert_eq!(entry_color(&f), EntryColor::Cyan);
    f.is_executable = true;
    assert_eq!(entry_color(&f), EntryColor::Green);
    let d = item("/d/sub", true);
    assert_eq!(entry_color(&d), EntryColor::Blue);
    assert_eq!(display_name(&d), "sub/");
    assert_eq!(display_name(&f), "run.sh");
}

#[test]
fn current_column_window() {
    let filtered = vec![0, 2, 3, 5];
    assert_eq!(visible_entries(&filtered, 1, 2, 2), vec![(2, false), (3, true)]);
    assert_eq!(visible_entries(&filtered, 3, 5, 0), vec![(5, false)]);
    assert_eq!(visible_entries(&filtered, 4, 5, 0), Vec::<(usize, bool)>::new());
}

#[test]
fn new_session_previews_the_selected_entry() {
    let entries = vec![item("/d/b.txt", false), item("/d/sub", true)];
    let fresh = MillerState::new("/d".to_string(), entries.clone(), vec![]);
    match selection_target(&fresh) {
        PreviewTarget::Dir(p) => assert_eq!(p, "/d/sub"),
        _ => panic!("expected the directory"),
    }
    let ws = Workspace::new(
        "/d".to_string(),
        entries,
        vec![],
        PreviewSource::DirEntries(vec![item("/d/sub/z", false), item("/d/sub/y", true)]),
    );
    match &ws.preview {
        Preview::Dir(es) => assert_eq!(es.iter().map(|e| e.name.as_str()).collect::<Vec<_>>(), vec!["y", "z"]),
        _ => panic!("expected a directory preview"),
    }
    assert_eq!(ws.miller.history.len(), 0);
}
