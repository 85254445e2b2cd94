use dwx::tree::{sort_entries, FileItem, MillerState};

fn item(path: &str, is_dir: bool) -> FileItem {
    FileItem::from_path(path.to_string(), is_dir, !is_dir, false, false)
}

fn names(v: &[FileItem]) -> Vec<String> {
    v.iter().map(|e| e.name.clone()).collect()
}

fn listing_d() -> Vec<FileItem> {
    vec![item("/d/b.txt", false), item("/d/sub", true), item("/d/A.txt", false), item("/d/other", true)]
}

#[test]
fn from_path_names_by_final_component() {
    let e = FileItem::from_path("/home/u/notes.md".to_string(), false, true, false, false);
    assert_eq!(e.name, "notes.md");
    assert_eq!(e.path, "/home/u/notes.md");
    assert!(e.is_file && !e.is_dir);
    let root = FileItem::from_path("/".to_string(), true, false, false, false);
    assert_eq!(root.name, "");
}

#[test]
fn listing_order_directories_first_case_insensitive_stable() {
    let items = vec![
        item("/x/b", false),
        item("/x/A", false),
        item("/x/z", true),
        item("/x/a", false),
        item("/x/C", true),
    ];
    let sorted = sort_entries(&items);
    assert_eq!(names(&sorted), vec!["C", "z", "A", "a", "b"]);
}

#[test]
fn new_state_shows_sorted_listing() {
    let m = MillerState::new("/d".to_string(), listing_d(), vec![item("/d", true), item("/e", true)]);
    assert_eq!(names(&m.current_entries), vec!["other", "sub", "A.txt", "b.txt"]);
    assert_eq!(names(&m.parent_entries), vec!["d", "e"]);
    assert_eq!(m.filtered_indices, vec![0, 1, 2, 3]);
    assert_eq!(m.selected_index, 0);
    assert_eq!(m.get_selected_path(), Some("/d/other".to_string()));
}

#[test]
fn root_has_no_parent_listing() {
    let m = MillerState::new("/".to_string(), vec![item("/d", true)], vec![item("/zzz", true)]);
    assert!(m.parent_entries.is_empty());
    assert_eq!(m.parent_dir(), None);
    let m2 = MillerState::new("/a/b".to_string(), vec![], vec![]);
    assert_eq!(m2.parent_dir(), Some("/a".to_string()));
}

#[test]
fn refresh_keeps_cursor_inside() {
    let mut m = MillerState::new("/d".to_string(), listing_d(), vec![]);
    m.selected_index = 3;
    m.refresh(vec![item("/d/one", false), item("/d/two", false)], vec![]);
    assert_eq!(m.selected_index, 1);
    m.refresh(vec![], vec![]);
    assert_eq!(m.selected_index, 0);
    assert!(m.filtered_indices.is_empty());
    assert_eq!(m.get_selected_path(), None);
}

#[test]
fn filter_is_case_insensitive_and_resets_cursor() {
    let mut m = MillerState::new("/d".to_string(), listing_d(), vec![]);
    m.selected_index = 2;
    m.scroll_offset = 1;
    m.filter("TXT");
    assert_eq!(m.filtered_indices, vec![2, 3]);
    assert_eq!(m.selected_index, 0);
    assert_eq!(m.scroll_offset, 0);
    assert_eq!(m.get_selected_path(), Some("/d/A.txt".to_string()));
    m.filter("zzz");
    assert!(m.filtered_indices.is_empty());
    assert_eq!(m.get_selected_path(), None);
    m.filter("");
    assert_eq!(m.filtered_indices, vec![0, 1, 2, 3]);
}

#[test]
fn moving_scrolls_at_the_edges() {
    let entries: Vec<FileItem> = (0..6).map(|i| item(&format!("/d/f{}", i), false)).collect();
    let mut m = MillerState::new("/d".to_string(), entries, vec![]);
    assert_eq!(m.move_up(), None);
    assert_eq!(m.move_down(2), Some("/d/f1".to_string()));
    assert_eq!(m.scroll_offset, 0);
    assert_eq!(m.move_down(2), Some("/d/f2".to_string()));
    assert_eq!(m.scroll_offset, 1);
    for _ in 0..3 {
        m.move_down(2);
    }
    assert_eq!(m.selected_index, 5);
    assert_eq!(m.move_down(2), None);
    assert_eq!(m.selected_index, 5);
    let scroll = m.scroll_offset;
    assert_eq!(scroll, 4);
    m.move_up();
    m.move_up();
    assert_eq!(m.selected_index, 3);
    assert_eq!(m.scroll_offset, 3);
}

#[test]
fn enter_then_go_parent_returns_to_origin() {
    let mut m = MillerState::new("/d".to_string(), listing_d(), vec![]);
    m.move_down(10);
    assert_eq!(m.enter_target(), Some("/d/sub".to_string()));
    m.enter_dir(vec![item("/d/sub/inner.txt", false)], listing_d());
    assert_eq!(m.current_dir, "/d/sub");
    assert_eq!(names(&m.current_entries), vec!["inner.txt"]);
    assert_eq!(names(&m.parent_entries), vec!["other", "sub", "A.txt", "b.txt"]);
    assert_eq!(m.selected_index, 0);
    m.go_parent(listing_d(), vec![]);
    assert_eq!(m.current_dir, "/d");
    assert_eq!(m.selected_index, 1);
    assert_eq!(m.current_entries[m.selected_index].name, "sub");
}

#[test]
fn entering_a_file_does_nothing() {
    let mut m = MillerState::new("/d".to_string(), listing_d(), vec![]);
    m.selected_index = 2;
    assert_eq!(m.enter_target(), None);
    m.enter_dir(vec![item("/zzz", false)], vec![]);
    assert_eq!(m.current_dir, "/d");
    assert_eq!(names(&m.current_entries), vec!["other", "sub", "A.txt", "b.txt"]);
}

#[test]
fn go_parent_selects_top_when_origin_is_gone() {
    let mut m = MillerState::new("/d/gone".to_string(), vec![], vec![]);
    m.go_parent(listing_d(), vec![]);
    assert_eq!(m.current_dir, "/d");
    assert_eq!(m.selected_index, 0);
}

#[test]
fn history_restores_cursor_when_reentering() {
    let sub_listing = vec![item("/d/sub/a", false), item("/d/sub/deep1", true), item("/d/sub/deep2", true)];
    let mut m = MillerState::new("/d".to_string(), listing_d(), vec![]);
    m.selected_index = 1; // "sub"
    m.enter_dir(sub_listing.clone(), listing_d());
    assert_eq!(names(&m.current_entries), vec!["deep1", "deep2", "a"]);
    assert_eq!(m.selected_index, 0);
    m.move_down(10);
    assert_eq!(m.selected_index, 1);
    // leaving /d/sub by entering deep2 remembers the cursor of /d/sub
    m.enter_dir(vec![], sub_listing.clone());
    assert_eq!(m.current_dir, "/d/sub/deep2");
    m.go_parent(sub_listing.clone(), listing_d());
    m.go_parent(listing_d(), vec![]);
    assert_eq!(m.current_dir, "/d");
    assert_eq!(m.selected_index, 1);
    // the cursor of /d/sub comes back (not the top of the list)
    m.move_down(10);
    m.move_up();
    m.enter_dir(sub_listing, listing_d());
    assert_eq!(m.current_dir, "/d/sub");
    assert_eq!(m.selected_index, 1);
    assert_eq!(m.get_selected_path(), Some("/d/sub/deep2".to_string()));
}

#[test]
fn set_dir_resets_cursor() {
    let mut m = MillerState::new("/d".to_string(), listing_d(), vec![]);
    m.selected_index = 3;
    m.scroll_offset = 2;
    m.set_dir("/e".to_string(), vec![item("/e/x", false)], vec![item("/d", true)]);
    assert_eq!(m.current_dir, "/e");
    assert_eq!(m.selected_index, 0);
    assert_eq!(m.scroll_offset, 0);
    assert_eq!(names(&m.current_entries), vec!["x"]);
}

#[test]
fn set_dir_gives_a_fresh_state_keeping_memory() {
    let mut m = MillerState::new("/d".to_string(), listing_d(), vec![]);
    m.selected_index = 1;
    m.enter_dir(vec![item("/d/sub/x", false)], listing_d());
    let remembered = m.history.len();
    m.set_dir("/d".to_string(), listing_d(), vec![item("/d", true)]);
    let fresh = MillerState::new("/d".to_string(), listing_d(), vec![item("/d", true)]);
    assert_eq!(names(&m.current_entries), names(&fresh.current_entries));
    assert_eq!(names(&m.parent_entries), names(&fresh.parent_entries));
    assert_eq!(m.filtered_indices, fresh.filtered_indices);
    assert_eq!(m.selected_index, fresh.selected_index);
    assert_eq!(m.scroll_offset, fresh.scroll_offset);
    assert_eq!(m.history.len(), remembered);
    assert_eq!(fresh.history.len(), 0);
}

#[test]
fn round_trip_restores_the_same_entry() {
    let mut m = MillerState::new("/d".to_string(), listing_d(), vec![]);
    m.move_down(20);
    let before_index = m.selected_index;
    let before_path = m.get_selected_path();
    assert_eq!(before_path, Some("/d/sub".to_string()));
    m.enter_dir(vec![item("/d/sub/x", false)], listing_d());
    m.go_parent(listing_d(), vec![]);
    assert_eq!(m.selected_index, before_index);
    assert_eq!(m.get_selected_path(), before_path);
}

#[test]
fn filter_ignores_ascii_case() {
    let mut a = MillerState::new("/d".to_string(), listing_d(), vec![]);
    let mut b = MillerState::new("/d".to_string(), listing_d(), vec![]);
    a.filter("TXT");
    b.filter("txt");
    assert_eq!(a.filtered_indices, b.filtered_indices);
    assert_eq!(a.filtered_indices, vec![2, 3]);
}
