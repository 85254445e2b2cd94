use dwx::actions::{archive_destination, archive_member_name, list_tar_gz_contents};
use dwx::highlight::viewer_rows;
use dwx::crypto::hash;
use dwx::text::{chars_le, fit_to_width, split_lines, str_contains, str_ends_with};
use dwx::textmap::TextMap;

#[test]
fn split_lines_handles_crlf_and_final_newline() {
    assert_eq!(split_lines("a\r\nb\n"), vec!["a".to_string(), "b".to_string()]);
    assert_eq!(split_lines("a\nb"), vec!["a".to_string(), "b".to_string()]);
    assert_eq!(split_lines(""), Vec::<String>::new());
    assert_eq!(split_lines("\n"), vec!["".to_string()]);
    assert_eq!(split_lines("x\n\ny"), vec!["x".to_string(), "".to_string(), "y".to_string()]);
}

#[test]
fn split_lines_keeps_trailing_carriage_return_of_last_line() {
    assert_eq!(
        split_lines("foo\nbar\n\r\nbaz\r"),
        vec!["foo".to_string(), "bar".to_string(), "".to_string(), "baz\r".to_string()]
    );
}

#[test]
fn split_lines_agrees_with_std_lines() {
    for t in ["one\ntwo\r\nthree", "\r\n\r\n", "a\rb\nc", "  \n\t\n"] {
        let expected: Vec<String> = t.lines().map(|s| s.to_string()).collect();
        assert_eq!(split_lines(t), expected);
    }
}

#[test]
fn contains_and_suffix() {
    assert!(str_contains("readme.md", "me.m"));
    assert!(str_contains("abc", ""));
    assert!(!str_contains("abc", "abcd"));
    assert!(!str_contains("abc", "ac"));
    assert!(str_ends_with("backup.tar.gz", ".tar.gz"));
    assert!(!str_ends_with("backup.tar", ".tar.gz"));
    assert!(!str_ends_with("gz", ".tar.gz"));
}

#[test]
fn lexicographic_order_by_code_point() {
    let a: Vec<char> = "apple".chars().collect();
    let b: Vec<char> = "banana".chars().collect();
    let ap: Vec<char> = "app".chars().collect();
    assert!(chars_le(&a, &b));
    assert!(!chars_le(&b, &a));
    assert!(chars_le(&ap, &a));
    assert!(!chars_le(&a, &ap));
    assert!(chars_le(&a, &a));
}

#[test]
fn fit_to_width_cuts_with_ellipsis() {
    assert_eq!(fit_to_width("hello", 10), "hello");
    assert_eq!(fit_to_width("hello", 5), "hello");
    assert_eq!(fit_to_width("hello", 3), "he…");
    assert_eq!(fit_to_width("hello", 1), "…");
    assert_eq!(fit_to_width("hello", 0), "…");
    assert_eq!(fit_to_width("éèà", 2), "é…");
}

#[test]
fn content_names_are_blake3_prefixes() {
    assert_eq!(hash("notes.txt", b""), "af1349b.txt");
    assert_eq!(hash("/src/main.rs", b"abc"), "6437b3a.rs");
    assert_eq!(hash("/src/archive.tar.gz", b"abc"), "6437b3a.gz");
}

#[test]
fn content_names_without_extension() {
    assert_eq!(hash("Makefile", b"abc"), "6437b3a");
    assert_eq!(hash("/home/u/.bashrc", b""), "af1349b");
}

#[test]
fn content_name_shape() {
    let n = hash("a.md", b"some file content\n");
    assert_eq!(n.len(), 10);
    assert!(n.ends_with(".md"));
    assert!(n[..7].chars().all(|c| c.is_ascii_digit() || ('a'..='f').contains(&c)));
    assert_eq!(hash("x.md", b"same"), hash("y.md", b"same"));
    assert_ne!(hash("x.md", b"same"), hash("x.md", b"other"));
    assert_ne!(hash("x.md", b"same"), hash("x.rs", b"same"));
}

#[test]
fn archive_members_are_relative_to_the_base() {
    assert_eq!(archive_member_name("/home/u/proj", "/home/u/proj/src/main.rs"), Some("src/main.rs".to_string()));
    assert_eq!(archive_member_name("/home/u/proj", "/home/u/proj"), None);
    assert_eq!(archive_member_name("/home/u/proj", "/elsewhere/x"), Some("/elsewhere/x".to_string()));
}

#[test]
fn archive_destination_adds_extension() {
    assert_eq!(archive_destination("/home/u/proj", "backup"), "/home/u/proj/backup.tar.gz");
    assert_eq!(archive_destination("/home/u/proj/", "b"), "/home/u/proj/b.tar.gz");
}

#[test]
fn text_map_replaces_and_lists_every_key() {
    let mut m: TextMap<u32> = TextMap::new();
    m.insert("a".to_string(), 1);
    m.insert("b".to_string(), 2);
    m.insert("a".to_string(), 3);
    assert_eq!(m.len(), 2);
    assert_eq!(m.get(&"a".to_string()), Some(&3));
    assert!(m.contains_key(&"b".to_string()));
    assert!(!m.contains_key(&"c".to_string()));
    let mut seen: Vec<(String, u32)> = (0..m.len())
        .map(|i| {
            let (k, v) = m.entry_at(i);
            (k.clone(), *v)
        })
        .collect();
    seen.sort();
    assert_eq!(seen, vec![("a".to_string(), 3), ("b".to_string(), 2)]);
}

fn tar_gz_of(names: &[&str]) -> Vec<u8> {
    let enc = flate2::write::GzEncoder::new(Vec::new(), flate2::Compression::default());
    let mut builder = tar::Builder::new(enc);
    for name in names {
        let data = b"content";
        let mut header = tar::Header::new_gnu();
        header.set_size(data.len() as u64);
        header.set_mode(0o644);
        header.set_cksum();
        builder.append_data(&mut header, name, &data[..]).unwrap();
    }
    builder.into_inner().unwrap().finish().unwrap()
}

#[test]
fn archive_members_are_listed_in_order() {
    let bytes = tar_gz_of(&["a.txt", "dir/b.txt"]);
    assert_eq!(
        list_tar_gz_contents(&bytes),
        Ok(vec!["a.txt".to_string(), "dir/b.txt".to_string()])
    );
    assert_eq!(list_tar_gz_contents(&tar_gz_of(&[])), Ok(vec![]));
}

#[test]
fn non_archive_bytes_are_refused() {
    assert_eq!(list_tar_gz_contents(b"plain text, not gzip"), Err(()));
}

#[test]
fn archive_destination_keeps_existing_extension() {
    assert_eq!(archive_destination("/d", "notes.txt"), "/d/notes.txt.tar.gz");
}

fn row_text(row: &[(u8, u8, u8, String)]) -> String {
    row.iter().map(|g| g.3.as_str()).collect()
}

#[test]
fn viewer_rows_trim_line_ends() {
    let rows = viewer_rows("notes.txt", "txt", "a\tb\r\n c\t\n\nlast");
    let texts: Vec<String> = rows.iter().map(|r| row_text(r)).collect();
    assert_eq!(texts, vec!["a\tb".to_string(), " c".to_string(), "".to_string(), "last".to_string()]);
    for row in &rows {
        for g in row {
            assert!(!g.3.ends_with('\n') && !g.3.ends_with('\r') && !g.3.ends_with('\t'));
        }
    }
    assert!(viewer_rows("notes.txt", "txt", "").is_empty());
}

#[test]
fn viewer_rows_colour_source_code() {
    let rows = viewer_rows("main.rs", "rs", "fn main() {}\n");
    assert_eq!(rows.len(), 1);
    assert_eq!(row_text(&rows[0]), "fn main() {}");
    assert!(rows[0].len() > 1);
    let colours: std::collections::HashSet<(u8, u8, u8)> =
        rows[0].iter().map(|g| (g.0, g.1, g.2)).collect();
    assert!(colours.len() > 1);
}

fn colours(rows: &[Vec<(u8, u8, u8, String)>]) -> std::collections::HashSet<(u8, u8, u8)> {
    rows.iter().flat_map(|r| r.iter().map(|g| (g.0, g.1, g.2))).collect()
}

#[test]
fn viewer_rows_find_syntax_by_first_line() {
    let script = "#!/bin/bash\nif true; then echo hi; fi\n";
    assert!(colours(&viewer_rows("script", "", script)).len() > 1);
    assert_eq!(colours(&viewer_rows("notes", "", "if true; then echo hi; fi\n")).len(), 1);
}
