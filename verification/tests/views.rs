use dwx::app::{App, Rect, RunAction, SplitDirection, SplitNode, View};
use dwx::keys::Key;
use dwx::ui::visible_lines;
use dwx::app::pattern::search_segments;

fn view(tabs: &[&str], active: bool) -> View {
    View {
        tabs: tabs.iter().map(|t| t.to_string()).collect(),
        active_tab: 0,
        scroll_offset: 0,
        is_active: active,
    }
}

fn leaves(n: &SplitNode) -> Vec<&View> {
    match n {
        SplitNode::Leaf(v) => vec![v],
        SplitNode::Split { left, right, .. } => {
            let mut l = leaves(left);
            l.extend(leaves(right));
            l
        }
    }
}

fn focus(n: &SplitNode) -> Vec<bool> {
    leaves(n).iter().map(|v| v.is_active).collect()
}

fn app_with_text(text: &str) -> App {
    let mut app = App::default();
    app.add_workspaces();
    assert!(app.try_add_file("/tmp/notes.txt".to_string(), text));
    let key = dwx::crypto::hash("/tmp/notes.txt", text.as_bytes());
    if let SplitNode::Leaf(v) = &mut app.workspaces[0].root {
        v.tabs.push(key);
    }
    app
}

fn type_query(app: &mut App, q: &str) {
    assert_eq!(app.handle_key(Key::Char('/'), false), RunAction::Continue);
    for c in q.chars() {
        app.handle_key(Key::Char(c), false);
    }
}

fn active_scroll(app: &App) -> usize {
    leaves(&app.workspaces[app.active_workspace].root)
        .into_iter()
        .find(|v| v.is_active)
        .unwrap()
        .scroll_offset
}

#[test]
fn tabs_cycle_both_ways() {
    let mut v = view(&["a", "b", "c"], true);
    v.next_tab();
    assert_eq!(v.active_tab, 1);
    v.next_tab();
    v.next_tab();
    assert_eq!(v.active_tab, 0);
    v.previous_tab();
    assert_eq!(v.active_tab, 2);
    assert_eq!(v.get_active_tab_hash(), Some(&"c".to_string()));
    v.next_tab();
    assert_eq!(v.active_tab, 0);
    let mut e = view(&[], true);
    e.next_tab();
    e.previous_tab();
    assert_eq!(e.active_tab, 0);
    assert_eq!(e.get_active_tab_hash(), None);
}

#[test]
fn workspaces_cycle_and_jump() {
    let mut app = App::default();
    app.next_workspace();
    assert_eq!(app.active_workspace, 0);
    app.add_workspaces().add_workspaces().add_workspaces();
    assert_eq!(app.workspaces.len(), 3);
    app.previous_workspace();
    assert_eq!(app.active_workspace, 2);
    app.next_workspace();
    assert_eq!(app.active_workspace, 0);
    app.go_to_workspace(1);
    assert_eq!(app.active_workspace, 1);
    app.go_to_workspace(7);
    assert_eq!(app.active_workspace, 1);
}

#[test]
fn split_then_close_restores_single_view() {
    let mut app = App::default();
    app.add_workspaces();
    app.split_active_view(SplitDirection::Vertical);
    assert_eq!(focus(&app.workspaces[0].root), vec![true, false]);
    match &app.workspaces[0].root {
        SplitNode::Split { ratio, direction, .. } => {
            assert_eq!(*ratio, 50);
            assert_eq!(*direction, SplitDirection::Vertical);
        }
        _ => panic!("expected a split"),
    }
    app.close_active_view();
    assert_eq!(focus(&app.workspaces[0].root), vec![true]);
    assert!(matches!(app.workspaces[0].root, SplitNode::Leaf(_)));
}

#[test]
fn closing_the_last_view_leaves_a_fresh_one() {
    let mut app = App::default();
    app.add_workspaces();
    if let SplitNode::Leaf(v) = &mut app.workspaces[0].root {
        v.tabs.push("x".to_string());
    }
    app.close_active_view();
    match &app.workspaces[0].root {
        SplitNode::Leaf(v) => {
            assert!(v.tabs.is_empty());
            assert!(v.is_active);
        }
        _ => panic!("expected a view"),
    }
}

#[test]
fn cycle_focus_visits_every_view() {
    let mut app = App::default();
    app.add_workspaces();
    app.split_active_view(SplitDirection::Vertical);
    app.split_active_view(SplitDirection::Horizontal);
    assert_eq!(focus(&app.workspaces[0].root), vec![true, false, false]);
    assert!(app.views_countable());
    app.cycle_focus();
    assert_eq!(focus(&app.workspaces[0].root), vec![false, true, false]);
    app.cycle_focus();
    assert_eq!(focus(&app.workspaces[0].root), vec![false, false, true]);
    app.cycle_focus();
    assert_eq!(focus(&app.workspaces[0].root), vec![true, false, false]);
}

#[test]
fn close_moves_focus_to_first_view() {
    let mut app = App::default();
    app.add_workspaces();
    app.split_active_view(SplitDirection::Vertical);
    app.cycle_focus();
    app.split_active_view(SplitDirection::Vertical);
    assert_eq!(focus(&app.workspaces[0].root), vec![false, true, false]);
    app.close_active_view();
    assert_eq!(focus(&app.workspaces[0].root), vec![true, false]);
}

#[test]
fn resizing_is_kept_between_tenths() {
    let mut app = App::default();
    app.add_workspaces();
    app.split_active_view(SplitDirection::Vertical);
    for _ in 0..20 {
        app.adjust_active_ratio(5);
    }
    match &app.workspaces[0].root {
        SplitNode::Split { ratio, .. } => assert_eq!(*ratio, 90),
        _ => panic!(),
    }
    for _ in 0..3 {
        app.adjust_active_ratio(-5);
    }
    match &app.workspaces[0].root {
        SplitNode::Split { ratio, .. } => assert_eq!(*ratio, 75),
        _ => panic!(),
    }
    for _ in 0..40 {
        app.adjust_active_ratio(-5);
    }
    match &app.workspaces[0].root {
        SplitNode::Split { ratio, .. } => assert_eq!(*ratio, 10),
        _ => panic!(),
    }
}

#[test]
fn rect_split_partitions() {
    let r = Rect { x: 2, y: 3, width: 101, height: 40 };
    let (a, b) = r.split(SplitDirection::Vertical, 50);
    assert_eq!((a.x, a.width, b.x, b.width), (2, 51, 53, 50));
    assert_eq!((a.height, b.height, b.y), (40, 40, 3));
    let (a, b) = r.split(SplitDirection::Horizontal, 25);
    assert_eq!((a.y, a.height, b.y, b.height), (3, 10, 13, 30));
    let (a, _) = r.split(SplitDirection::Vertical, 99);
    assert_eq!(a.width, 91);
    let (a, _) = r.split(SplitDirection::Vertical, 0);
    assert_eq!(a.width, 10);
}

#[test]
fn add_file_stores_lines_under_content_name() {
    let mut app = App::default();
    app.add_file("/home/u/readme.md".to_string(), "line one\r\nline two\n");
    let key = dwx::crypto::hash("readme.md", "line one\r\nline two\n".as_bytes());
    assert!(key.ends_with(".md"));
    let b = app.buffers.get(&key).expect("buffer");
    assert_eq!(b.original_name, "readme.md");
    assert_eq!(b.original_path, "/home/u/readme.md");
    assert_eq!(b.temp_path, format!("/tmp/dwx/{}", key));
    assert_eq!(b.lines, vec!["line one".to_string(), "line two".to_string()]);
    assert_eq!(app.buffers.len(), 1);
    app.add_file("/other/readme.md".to_string(), "line one\r\nline two\n");
    assert_eq!(app.buffers.len(), 1);
}

#[test]
fn a_path_without_name_is_not_opened() {
    let mut app = App::default();
    assert!(!app.try_add_file("/".to_string(), "x"));
    assert_eq!(app.buffers.len(), 0);
}

#[test]
fn active_buffer_is_the_first_views() {
    let app = app_with_text("a\nb\nc\n");
    let b = app.get_active_buffer().expect("buffer");
    assert_eq!(b.lines.len(), 3);
}

#[test]
fn scrolling_stays_within_the_buffer() {
    let mut app = app_with_text("a\nb\nc\n");
    app.scroll_up();
    assert_eq!(active_scroll(&app), 0);
    app.scroll_down();
    app.scroll_down();
    app.scroll_down();
    assert_eq!(active_scroll(&app), 2);
    app.scroll_up();
    assert_eq!(active_scroll(&app), 1);
}

#[test]
fn search_next_wraps_around() {
    let mut app = app_with_text("alpha\nbeta\ngamma\nalphabet\n");
    type_query(&mut app, "alp.a");
    assert!(app.is_searching);
    assert_eq!(app.search_query, "alp.a");
    app.handle_key(Key::Enter, false);
    assert!(!app.is_searching);
    assert_eq!(active_scroll(&app), 3);
    app.handle_key(Key::Char('n'), false);
    assert_eq!(active_scroll(&app), 0);
    app.handle_key(Key::Char('n'), false);
    assert_eq!(active_scroll(&app), 3);
}

#[test]
fn search_previous_wraps_around() {
    let mut app = app_with_text("x1\ny\nx2\ny\n");
    type_query(&mut app, "x");
    app.handle_key(Key::Esc, false);
    assert!(app.key_ready(Key::Char('N')));
    app.handle_key(Key::Char('N'), false);
    assert_eq!(active_scroll(&app), 2);
    app.handle_key(Key::Char('N'), false);
    assert_eq!(active_scroll(&app), 0);
}

#[test]
fn search_with_invalid_or_unmatched_pattern_keeps_position() {
    let mut app = app_with_text("a\nb\n");
    app.scroll_down();
    type_query(&mut app, "(");
    app.handle_key(Key::Enter, false);
    assert_eq!(active_scroll(&app), 1);
    type_query(&mut app, "zzz");
    app.handle_key(Key::Enter, false);
    assert_eq!(active_scroll(&app), 1);
}

#[test]
fn search_query_editing() {
    let mut app = App::default();
    type_query(&mut app, "abc");
    app.handle_key(Key::Backspace, false);
    assert_eq!(app.search_query, "ab");
    app.handle_key(Key::Backspace, false);
    app.handle_key(Key::Backspace, false);
    app.handle_key(Key::Backspace, false);
    assert_eq!(app.search_query, "");
    app.handle_key(Key::Char('/'), false);
    assert_eq!(app.search_query, "/");
}

#[test]
fn window_mode_keys() {
    let mut app = App::default();
    app.add_workspaces();
    app.handle_key(Key::Char('w'), false);
    assert!(!app.window_mode);
    app.handle_key(Key::Char('w'), true);
    assert!(app.window_mode);
    app.handle_key(Key::Char('v'), false);
    app.handle_key(Key::Char('h'), false);
    assert_eq!(focus(&app.workspaces[0].root), vec![true, false, false]);
    app.handle_key(Key::Tab, false);
    assert_eq!(focus(&app.workspaces[0].root), vec![false, true, false]);
    app.handle_key(Key::Char('q'), false);
    assert_eq!(focus(&app.workspaces[0].root), vec![true, false]);
    assert_eq!(app.handle_key(Key::Esc, false), RunAction::Continue);
    assert!(!app.window_mode);
    assert_eq!(app.handle_key(Key::Esc, false), RunAction::Quit);
}

#[test]
fn normal_mode_keys() {
    let mut app = App::default();
    app.add_workspaces().add_workspaces();
    app.handle_key(Key::Char('2'), false);
    assert_eq!(app.active_workspace, 1);
    app.handle_key(Key::Char('0'), false);
    assert_eq!(app.active_workspace, 1);
    app.handle_key(Key::PageDown, false);
    assert_eq!(app.active_workspace, 0);
    app.handle_key(Key::PageUp, false);
    assert_eq!(app.active_workspace, 1);
    app.handle_key(Key::F(2), false);
    assert!(app.show_filenames);
    app.handle_key(Key::F(2), false);
    assert!(!app.show_filenames);
    if let SplitNode::Leaf(v) = &mut app.workspaces[1].root {
        v.tabs = vec!["a".to_string(), "b".to_string()];
    }
    app.handle_key(Key::Right, false);
    app.handle_key(Key::Tab, false);
    app.handle_key(Key::Left, false);
    match &app.workspaces[1].root {
        SplitNode::Leaf(v) => assert_eq!(v.active_tab, 1),
        _ => panic!(),
    }
}

#[test]
fn find_active_view_mut_reaches_the_focused_view() {
    let mut root = SplitNode::Split {
        ratio: 50,
        direction: SplitDirection::Horizontal,
        left: Box::new(SplitNode::Leaf(view(&["l"], false))),
        right: Box::new(SplitNode::Leaf(view(&["r"], true))),
    };
    let v = App::find_active_view_mut(&mut root).expect("focused view");
    assert_eq!(v.tabs, vec!["r".to_string()]);
    v.scroll_offset = 9;
    assert_eq!(leaves(&root)[1].scroll_offset, 9);
    let mut none = SplitNode::Leaf(view(&[], false));
    assert!(App::find_active_view_mut(&mut none).is_none());
}

#[test]
fn any_other_key_leaves_window_mode() {
    let mut app = App::default();
    app.add_workspaces();
    app.handle_key(Key::Char('w'), true);
    assert!(app.window_mode);
    assert_eq!(app.handle_key(Key::Char('x'), false), RunAction::Continue);
    assert!(!app.window_mode);
    assert_eq!(focus(&app.workspaces[0].root), vec![true]);
}

#[test]
fn tab_titles_follow_the_file_name_switch() {
    let mut app = app_with_text("one\ntwo\n");
    let key = dwx::crypto::hash("/tmp/notes.txt", "one\ntwo\n".as_bytes());
    assert_eq!(app.tab_title(&key), Some(key.clone()));
    app.show_filenames = true;
    assert_eq!(app.tab_title(&key), Some("notes.txt".to_string()));
    assert_eq!(app.tab_title(&"missing".to_string()), None);
}

#[test]
fn visible_lines_window_and_cut() {
    let lines: Vec<String> = ["alpha", "beta", "gamma", "delta"].iter().map(|s| s.to_string()).collect();
    assert_eq!(visible_lines(&lines, 1, 2, 3), vec!["bet".to_string(), "gam".to_string()]);
    assert_eq!(visible_lines(&lines, 3, 5, 10), vec!["delta".to_string()]);
    assert_eq!(visible_lines(&lines, 4, 5, 10), Vec::<String>::new());
    assert_eq!(visible_lines(&lines, 0, 0, 10), Vec::<String>::new());
}

#[test]
fn search_pieces_split_lines_around_matches() {
    let lines = vec!["xaby ab".to_string(), "none".to_string(), "ab".to_string()];
    let pieces = search_segments("ab", &lines).expect("a valid pattern");
    assert_eq!(pieces[0], vec![(0, 1, false), (1, 3, true), (3, 5, false), (5, 7, true)]);
    assert_eq!(pieces[1], vec![(0, 4, false)]);
    assert_eq!(pieces[2], vec![(0, 2, true)]);
    assert_eq!(search_segments("", &lines), None);
    assert_eq!(search_segments("(", &lines), None);
    let accented = vec!["é-ab".to_string()];
    assert_eq!(search_segments("ab", &accented).unwrap()[0], vec![(0, 3, false), (3, 5, true)]);
}
