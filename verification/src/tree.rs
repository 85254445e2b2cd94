//! Directory navigation state: the current directory, its parent's listing,
//! the visible (filtered) entries, the cursor and the per-directory memory of
//! where the cursor was.

use vstd::prelude::*;
use crate::paths::{file_name_of, parent_of, path_file_name, path_parent};
use crate::text::{
    ascii_lowercase, chars_contain, chars_le, chars_of, has_infix, is_ascii_text, lowercase, seq_le,
    to_lowercase,
};
use crate::textmap::TextMap;

verus! {

broadcast use vstd::seq_lib::group_seq_properties, vstd::seq_lib::group_filter_ensures;

/// Cursor and scroll position remembered for a directory.
#[derive(Clone, Copy, Default, Debug, PartialEq, Eq, Structural)]
pub struct DirState {
    pub selected_index: usize,
    pub scroll_offset: usize,
}

/// One entry of a directory listing.
#[derive(Clone, Debug)]
pub struct FileItem {
    pub path: String,
    pub name: String,
    pub is_dir: bool,
    pub is_file: bool,
    pub is_executable: bool,
    pub is_symlink: bool,
}

impl FileItem {
    /// An entry for `path`, named by its final component, with the kind of
    /// file that the file system reported for it.
    pub fn from_path(
        path: String,
        is_dir: bool,
        is_file: bool,
        is_executable: bool,
        is_symlink: bool,
    ) -> (r: Self)
        ensures
            r.path == path,
            r.name@ == file_name_of(path@),
            r.is_dir == is_dir,
            r.is_file == is_file,
            r.is_executable == is_executable,
            r.is_symlink == is_symlink,
    {
        let name = path_file_name(path.as_str());
        FileItem { path, name, is_dir, is_file, is_executable, is_symlink }
    }

    /// A copy of the entry.
    pub fn duplicate(&self) -> (r: Self)
        ensures
            r == *self,
    {
        FileItem {
            path: self.path.clone(),
            name: self.name.clone(),
            is_dir: self.is_dir,
            is_file: self.is_file,
            is_executable: self.is_executable,
            is_symlink: self.is_symlink,
        }
    }
}

// ---------------------------------------------------------------------------
// Listing order
// ---------------------------------------------------------------------------

/// The sort key of an entry: directories before files, then by lowercase name.
pub open spec fn entry_key(e: FileItem) -> (bool, Seq<char>) {
    (e.is_dir, lowercase(e.name@))
}

/// Order on sort keys: directories first, then lexicographically.
pub open spec fn key_le(a: (bool, Seq<char>), b: (bool, Seq<char>)) -> bool {
    (a.0 && !b.0) || (a.0 == b.0 && seq_le(a.1, b.1))
}

/// Entries in listing order.
pub open spec fn sorted_by_key(s: Seq<FileItem>) -> bool {
    forall|i: int, j: int| 0 <= i < j < s.len() ==> key_le(entry_key(s[i]), entry_key(s[j]))
}

/// Selects the entries with a given sort key.
pub open spec fn with_key(k: (bool, Seq<char>)) -> spec_fn(FileItem) -> bool {
    |e: FileItem| entry_key(e) == k
}

/// `sorted` is `items` in listing order, entries of equal key keeping their
/// relative order (a stable sort).
pub open spec fn listing_of(items: Seq<FileItem>, sorted: Seq<FileItem>) -> bool {
    &&& sorted_by_key(sorted)
    &&& forall|k: (bool, Seq<char>)| #[trigger]
        sorted.filter(with_key(k)) == items.filter(with_key(k))
}

pub proof fn lemma_seq_le_reflexive(a: Seq<char>)
    ensures
        seq_le(a, a),
    decreases a.len(),
{
    if a.len() > 0 {
        lemma_seq_le_reflexive(a.drop_first());
    }
}

pub proof fn lemma_seq_le_total(a: Seq<char>, b: Seq<char>)
    ensures
        seq_le(a, b) || seq_le(b, a),
    decreases a.len(),
{
    if a.len() > 0 && b.len() > 0 && a[0] == b[0] {
        lemma_seq_le_total(a.drop_first(), b.drop_first());
    }
}

pub proof fn lemma_seq_le_transitive(a: Seq<char>, b: Seq<char>, c: Seq<char>)
    requires
        seq_le(a, b),
        seq_le(b, c),
    ensures
        seq_le(a, c),
    decreases a.len(),
{
    if a.len() > 0 && b.len() > 0 && c.len() > 0 && a[0] == b[0] && b[0] == c[0] {
        lemma_seq_le_transitive(a.drop_first(), b.drop_first(), c.drop_first());
    }
}

proof fn lemma_key_le_facts()
    ensures
        forall|a: (bool, Seq<char>)| #[trigger] key_le(a, a),
        forall|a: (bool, Seq<char>), b: (bool, Seq<char>)|
            #![trigger key_le(a, b), key_le(b, a)]
            key_le(a, b) || key_le(b, a),
        forall|a: (bool, Seq<char>), b: (bool, Seq<char>), c: (bool, Seq<char>)|
            #![trigger key_le(a, b), key_le(b, c)]
            key_le(a, b) && key_le(b, c) ==> key_le(a, c),
{
    assert forall|a: (bool, Seq<char>)| #[trigger] key_le(a, a) by {
        lemma_seq_le_reflexive(a.1);
    }
    assert forall|a: (bool, Seq<char>), b: (bool, Seq<char>)|
        #![trigger key_le(a, b), key_le(b, a)]
        key_le(a, b) || key_le(b, a) by {
        lemma_seq_le_total(a.1, b.1);
    }
    assert forall|a: (bool, Seq<char>), b: (bool, Seq<char>), c: (bool, Seq<char>)|
        #![trigger key_le(a, b), key_le(b, c)]
        key_le(a, b) && key_le(b, c) implies key_le(a, c) by {
        if a.0 == b.0 && b.0 == c.0 {
            lemma_seq_le_transitive(a.1, b.1, c.1);
        }
    }
}

proof fn lemma_filter_single(x: FileItem, p: spec_fn(FileItem) -> bool)
    ensures
        seq![x].filter(p) == (if p(x) { seq![x] } else { Seq::<FileItem>::empty() }),
{
    reveal_with_fuel(Seq::filter, 2);
    assert(seq![x].drop_last() =~= Seq::<FileItem>::empty());
}

fn key_le_exec(a_dir: bool, a: &Vec<char>, b_dir: bool, b: &Vec<char>) -> (r: bool)
    ensures
        r == key_le((a_dir, a@), (b_dir, b@)),
{
    if a_dir && !b_dir {
        true
    } else if a_dir != b_dir {
        false
    } else {
        chars_le(a, b)
    }
}

fn lower_chars(s: &String) -> (r: Vec<char>)
    ensures
        r@ == lowercase(s@),
{
    let l = to_lowercase(s.as_str());
    chars_of(l.as_str())
}

/// Entries in listing order: directories first, then by lowercase name,
/// entries of equal key keeping their order.
pub fn sort_entries(items: &Vec<FileItem>) -> (r: Vec<FileItem>)
    ensures
        listing_of(items@, r@),
        r@.len() == items@.len(),
{
    let mut out: Vec<FileItem> = Vec::new();
    let mut keys: Vec<(bool, Vec<char>)> = Vec::new();
    let mut i: usize = 0;
    proof {
        lemma_key_le_facts();
        assert forall|k: (bool, Seq<char>)| #[trigger]
            out@.filter(with_key(k)) == items@.take(0).filter(with_key(k)) by {
            assert(items@.take(0) =~= Seq::<FileItem>::empty());
            reveal(Seq::filter);
        }
    }
    while i < items.len()
        invariant
            i <= items@.len(),
            out@.len() == i,
            keys@.len() == out@.len(),
            forall|j: int|
                0 <= j < keys@.len() ==> (#[trigger] keys@[j]).0 == out@[j].is_dir && keys@[j].1@
                    == lowercase(out@[j].name@),
            sorted_by_key(out@),
            forall|k: (bool, Seq<char>)| #[trigger]
                out@.filter(with_key(k)) == items@.take(i as int).filter(with_key(k)),
        decreases items@.len() - i,
    {
        proof {
            lemma_key_le_facts();
        }
        let x = items[i].duplicate();
        let xk = lower_chars(&x.name);
        let ghost k = entry_key(x);
        let mut pos: usize = 0;
        while pos < keys.len() && key_le_exec(keys[pos].0, &keys[pos].1, x.is_dir, &xk)
            invariant
                pos <= keys@.len(),
                keys@.len() == out@.len(),
                forall|j: int|
                    0 <= j < keys@.len() ==> (#[trigger] keys@[j]).0 == out@[j].is_dir
                        && keys@[j].1@ == lowercase(out@[j].name@),
                forall|j: int| 0 <= j < pos ==> key_le(entry_key(#[trigger] out@[j]), k),
                k == (x.is_dir, xk@),
            decreases keys@.len() - pos,
        {
            pos = pos + 1;
        }
        let ghost before = out@;
        proof {
            assert forall|j: int| pos <= j < before.len() implies !key_le(
                entry_key(#[trigger] before[j]),
                k,
            ) by {
                assert(keys@[pos as int].0 == before[pos as int].is_dir);
                assert(!key_le(entry_key(before[pos as int]), k));
                if j > pos && key_le(entry_key(before[j]), k) {
                    assert(key_le(entry_key(before[pos as int]), entry_key(before[j])));
                }
            }
        }
        let x_dir = x.is_dir;
        out.insert(pos, x);
        keys.insert(pos, (x_dir, xk));
        proof {
            let x = out@[pos as int];
            assert(entry_key(x) == k);
            assert(before =~= before.take(pos as int) + before.skip(pos as int));
            assert(out@ =~= before.take(pos as int) + seq![x] + before.skip(pos as int));
            assert(items@.take(i + 1) =~= items@.take(i as int).push(x));
            assert forall|a: int, b: int| 0 <= a < b < out@.len() implies key_le(
                entry_key(out@[a]),
                entry_key(out@[b]),
            ) by {
                if b == pos {
                    assert(out@[a] == before[a]);
                } else if a == pos {
                    assert(out@[b] == before[b - 1]);
                    assert(!key_le(entry_key(before[b - 1]), k));
                } else {
                    let a2 = if a < pos { a } else { a - 1 };
                    let b2 = if b < pos { b } else { b - 1 };
                    assert(out@[a] == before[a2]);
                    assert(out@[b] == before[b2]);
                }
            }
            assert forall|j: int|
                0 <= j < keys@.len() implies (#[trigger] keys@[j]).0 == out@[j].is_dir
                && keys@[j].1@ == lowercase(out@[j].name@) by {
                if j < pos {
                } else if j > pos {
                }
            }
            assert forall|kk: (bool, Seq<char>)| #[trigger]
                out@.filter(with_key(kk)) == items@.take(i + 1).filter(with_key(kk)) by {
                let p = with_key(kk);
                lemma_filter_single(x, p);
                let tail = before.skip(pos as int);
                let head = before.take(pos as int);
                assert(before.filter(p) == items@.take(i as int).filter(p));
                items@.take(i as int).lemma_filter_push(x, p);
                Seq::filter_distributes_over_add(head, tail, p);
                Seq::filter_distributes_over_add(head, seq![x], p);
                Seq::filter_distributes_over_add(head + seq![x], tail, p);
                if kk == k {
                    assert(tail.all(|e: FileItem| !p(e))) by {
                        assert forall|j: int| 0 <= j < tail.len() implies !p(tail[j]) by {
                            assert(tail[j] == before[pos + j]);
                            assert(!key_le(entry_key(before[pos + j]), k));
                        }
                    }
                    tail.lemma_all_neg_filter_empty(p);
                    assert(tail.filter(p) =~= Seq::<FileItem>::empty());
                    assert(before.filter(p) =~= before.take(pos as int).filter(p));
                    assert(out@.filter(p) =~= before.filter(p).push(x));
                } else {
                    assert(out@.filter(p) =~= before.take(pos as int).filter(p) + tail.filter(p));
                }
            }
        }
        i = i + 1;
    }
    proof {
        assert(items@.take(items@.len() as int) =~= items@);
    }
    out
}


// ---------------------------------------------------------------------------
// Navigation state
// ---------------------------------------------------------------------------

/// The indices `0 .. n`.
pub open spec fn all_indices(n: nat) -> Seq<usize> {
    Seq::new(n, |i: int| i as usize)
}

/// Indices of the entries whose lowercase name contains `query_lower`.
pub open spec fn matching_indices(entries: Seq<FileItem>, query_lower: Seq<char>) -> Seq<usize> {
    all_indices(entries.len()).filter(
        |i: usize| has_infix(lowercase(entries[i as int].name@), query_lower),
    )
}

/// `post` is `pre` filtered by `query`: the visible entries are those whose
/// lowercase name contains the lowercase query (all of them for an empty
/// query), the cursor at the top; the lowercase of an ASCII query is its
/// ASCII lowercase.
pub open spec fn filtered_by(pre: MillerState, post: MillerState, query: Seq<char>) -> bool {
    &&& (query.len() > 0 && is_ascii_text(query)) ==> lowercase(query) == ascii_lowercase(query)
    &&& post.filtered_indices@ == (if query.len() == 0 {
        all_indices(pre.current_entries@.len())
    } else {
        matching_indices(pre.current_entries@, lowercase(query))
    })
    &&& post.selected_index == 0
    &&& post.scroll_offset == 0
    &&& post.current_dir == pre.current_dir
    &&& post.current_entries == pre.current_entries
    &&& post.parent_entries == pre.parent_entries
    &&& post.history == pre.history
}

/// `post` is `pre` after entering the directory under the cursor (when it
/// is one), shown with the given listing: the cursor of the directory left
/// is remembered, the one remembered for the directory entered (if any) is
/// restored.
pub open spec fn entered_dir(
    pre: MillerState,
    post: MillerState,
    entries: Seq<FileItem>,
    parent_entries: Seq<FileItem>,
) -> bool {
    match pre.selected_entry() {
        Some(t) if t.is_dir => {
            let hist = pre.history@.insert(
                pre.current_dir@,
                DirState {
                    selected_index: pre.selected_index,
                    scroll_offset: pre.scroll_offset,
                },
            );
            let saved = if hist.contains_key(t.path@) {
                hist[t.path@]
            } else {
                DirState { selected_index: 0, scroll_offset: 0 }
            };
            &&& post.history@ == hist
            &&& post.current_dir == t.path
            &&& post.shows_listing(t.path@, entries, parent_entries)
            &&& post.selected_index == clamp_selection(
                saved.selected_index,
                entries.len(),
            )
            &&& post.scroll_offset == saved.scroll_offset
        },
        _ => post == pre,
    }
}

/// `post` is `pre` after going to the parent directory (when there is
/// one), shown with the given listing, the cursor on the directory it came
/// from (top of the list when that is not listed).
pub open spec fn went_to_parent(
    pre: MillerState,
    post: MillerState,
    entries: Seq<FileItem>,
    parent_entries: Seq<FileItem>,
) -> bool {
    match parent_of(pre.current_dir@) {
        Some(p) => {
            let name = file_name_of(pre.current_dir@);
            let pos = first_named(post.current_entries@, name);
            &&& post.current_dir@ == p
            &&& post.shows_listing(p, entries, parent_entries)
            &&& post.selected_index == (if pos < entries.len() {
                pos as usize
            } else {
                0
            })
            &&& post.scroll_offset == pre.scroll_offset
            &&& post.history@ == pre.history@
        },
        None => post == pre,
    }
}

/// A cursor position kept inside a list of `len` entries.
pub open spec fn clamp_selection(sel: usize, len: nat) -> usize {
    if len == 0 {
        0
    } else if sel >= len {
        (len - 1) as usize
    } else {
        sel
    }
}

/// Position of the first entry named `name`, or `s.len()` when there is none.
pub open spec fn first_named(s: Seq<FileItem>, name: Seq<char>) -> int
    decreases s.len(),
{
    if s.len() == 0 {
        0
    } else if s[0].name@ == name {
        0
    } else {
        1 + first_named(s.drop_first(), name)
    }
}

proof fn lemma_first_named_is(s: Seq<FileItem>, name: Seq<char>, k: int)
    requires
        0 <= k <= s.len(),
        k < s.len() ==> s[k].name@ == name,
        forall|j: int| 0 <= j < k ==> s[j].name@ != name,
    ensures
        first_named(s, name) == k,
    decreases s.len(),
{
    if s.len() > 0 && s[0].name@ != name {
        assert forall|j: int| 0 <= j < k - 1 implies s.drop_first()[j].name@ != name by {
            assert(s.drop_first()[j] == s[j + 1]);
        }
        lemma_first_named_is(s.drop_first(), name, k - 1);
    }
}

/// Position of the first entry named `name`, or the number of entries.
fn position_named(entries: &Vec<FileItem>, name: &String) -> (r: usize)
    ensures
        r == first_named(entries@, name@),
{
    let mut i: usize = 0;
    while i < entries.len()
        invariant
            i <= entries@.len(),
            forall|j: int| 0 <= j < i ==> entries@[j].name@ != name@,
        decreases entries@.len() - i,
    {
        if entries[i].name == *name {
            proof {
                lemma_first_named_is(entries@, name@, i as int);
            }
            return i;
        }
        i = i + 1;
    }
    proof {
        lemma_first_named_is(entries@, name@, entries@.len() as int);
    }
    i
}

/// The indices `0 .. n`.
pub fn index_range(n: usize) -> (r: Vec<usize>)
    ensures
        r@ == all_indices(n as nat),
{
    let mut r: Vec<usize> = Vec::new();
    let mut i: usize = 0;
    while i < n
        invariant
            i <= n,
            r@ == all_indices(i as nat),
        decreases n - i,
    {
        r.push(i);
        i = i + 1;
        proof {
            assert(r@ =~= all_indices(i as nat));
        }
    }
    r
}

/// `post` shows the given listing of `pre`'s directory and of its parent,
/// the cursor kept inside the entries, the filter cleared.
pub open spec fn refreshed(
    pre: MillerState,
    post: MillerState,
    entries: Seq<FileItem>,
    parent_entries: Seq<FileItem>,
) -> bool {
    &&& post.shows_listing(pre.current_dir@, entries, parent_entries)
    &&& post.selected_index == clamp_selection(pre.selected_index, entries.len())
    &&& post.current_dir == pre.current_dir
    &&& post.history@ == pre.history@
    &&& post.scroll_offset == pre.scroll_offset
}

/// `post` is at `dir`, showing the given listing of it and of its parent,
/// the cursor at the top, the memory of `pre` kept.
pub open spec fn dir_set(
    pre: MillerState,
    post: MillerState,
    dir: String,
    entries: Seq<FileItem>,
    parent_entries: Seq<FileItem>,
) -> bool {
    &&& post.current_dir == dir
    &&& post.shows_listing(dir@, entries, parent_entries)
    &&& post.selected_index == 0
    &&& post.scroll_offset == 0
    &&& post.history@ == pre.history@
}

/// The navigation invariant: the visible entries are listed in order, each
/// once, all of them existing, and the cursor is on one of them (at the top
/// when none is visible).
pub open spec fn nav_invariant(s: MillerState) -> bool {
    &&& forall|a: int, b: int|
        0 <= a < b < s.filtered_indices@.len() ==> s.filtered_indices@[a] < s.filtered_indices@[b]
    &&& forall|k: int|
        0 <= k < s.filtered_indices@.len() ==> s.filtered_indices@[k] < s.current_entries@.len()
    &&& if s.filtered_indices@.len() == 0 {
        s.selected_index == 0
    } else {
        s.selected_index < s.filtered_indices@.len()
    }
}

/// The listing, filter and memory of `post` are those of `pre`.
pub open spec fn same_listing(pre: MillerState, post: MillerState) -> bool {
    &&& post.current_dir == pre.current_dir
    &&& post.filtered_indices == pre.filtered_indices
    &&& post.current_entries == pre.current_entries
    &&& post.parent_entries == pre.parent_entries
    &&& post.history == pre.history
}

/// `post` is `pre` with the cursor one entry further down the visible list
/// (when one follows), scrolled by one entry when the cursor would leave the
/// `visible_rows` shown.
pub open spec fn moved_down(pre: MillerState, post: MillerState, visible_rows: usize) -> bool {
    if pre.selected_index + 1 < pre.filtered_indices@.len() {
        &&& post.selected_index == pre.selected_index + 1
        &&& post.scroll_offset == (if pre.selected_index + 1 >= pre.scroll_offset + visible_rows {
            pre.scroll_offset + 1
        } else {
            pre.scroll_offset as int
        })
        &&& same_listing(pre, post)
    } else {
        post == pre
    }
}

/// `post` is `pre` with the cursor one entry further up (when it is not at
/// the top), scrolled by one entry when the cursor would leave the top.
pub open spec fn moved_up(pre: MillerState, post: MillerState) -> bool {
    if pre.selected_index > 0 {
        &&& post.selected_index == pre.selected_index - 1
        &&& post.scroll_offset == (if pre.selected_index - 1 < pre.scroll_offset {
            pre.scroll_offset - 1
        } else {
            pre.scroll_offset as int
        })
        &&& same_listing(pre, post)
    } else {
        post == pre
    }
}

/// The navigation state of one directory column view.
pub struct MillerState {
    pub current_dir: String,
    pub filtered_indices: Vec<usize>,
    pub parent_entries: Vec<FileItem>,
    pub current_entries: Vec<FileItem>,
    pub history: TextMap<DirState>,
    pub selected_index: usize,
    pub scroll_offset: usize,
}

impl Default for MillerState {
    fn default() -> (r: Self)
        ensures
            r.current_dir@.len() == 0,
            r.filtered_indices@.len() == 0,
            r.parent_entries@.len() == 0,
            r.current_entries@.len() == 0,
            r.history@ == Map::<Seq<char>, DirState>::empty(),
            r.selected_index == 0,
            r.scroll_offset == 0,
    {
        MillerState {
            current_dir: String::new(),
            filtered_indices: Vec::new(),
            parent_entries: Vec::new(),
            current_entries: Vec::new(),
            history: TextMap::new(),
            selected_index: 0,
            scroll_offset: 0,
        }
    }
}

impl MillerState {
    /// The entry under the cursor, through the filter.
    pub open spec fn selected_entry(self) -> Option<FileItem> {
        if self.selected_index < self.filtered_indices@.len()
            && self.filtered_indices@[self.selected_index as int] < self.current_entries@.len() {
            Some(self.current_entries@[self.filtered_indices@[self.selected_index as int] as int])
        } else {
            None
        }
    }

    /// The path of the entry under the cursor.
    pub open spec fn selected_path(self) -> Option<String> {
        match self.selected_entry() {
            Some(e) => Some(e.path),
            None => None,
        }
    }

    /// The state shows the listing of `dir`: its entries and its parent's
    /// entries in listing order (no parent entries when `dir` has no
    /// parent), all entries visible.
    pub open spec fn shows_listing(
        self,
        dir: Seq<char>,
        entries: Seq<FileItem>,
        parent_entries: Seq<FileItem>,
    ) -> bool {
        &&& listing_of(entries, self.current_entries@)
        &&& self.current_entries@.len() == entries.len()
        &&& match parent_of(dir) {
            Some(_) => listing_of(parent_entries, self.parent_entries@),
            None => self.parent_entries@.len() == 0,
        }
        &&& self.filtered_indices@ == all_indices(entries.len())
    }

    /// A state for `start_dir`, showing the given listing of it and of its
    /// parent, cursor at the top and no remembered positions.
    pub fn new(start_dir: String, entries: Vec<FileItem>, parent_entries: Vec<FileItem>) -> (r: Self)
        ensures
            r.current_dir == start_dir,
            r.shows_listing(start_dir@, entries@, parent_entries@),
            r.selected_index == 0,
            r.scroll_offset == 0,
            r.history@ == Map::<Seq<char>, DirState>::empty(),
    {
        let mut state = MillerState {
            current_dir: start_dir,
            parent_entries: Vec::new(),
            current_entries: Vec::new(),
            selected_index: 0,
            filtered_indices: Vec::new(),
            scroll_offset: 0,
            history: TextMap::new(),
        };
        state.refresh(entries, parent_entries);
        state
    }

    /// Shows the given listing of the current directory and of its parent,
    /// keeps the cursor inside the entries and clears the filter.
    pub fn refresh(&mut self, entries: Vec<FileItem>, parent_entries: Vec<FileItem>)
        ensures
            refreshed(*old(self), *final(self), entries@, parent_entries@),
    {
        self.current_entries = sort_entries(&entries);
        let n = self.current_entries.len();
        if n == 0 {
            self.selected_index = 0;
        } else if self.selected_index >= n {
            self.selected_index = n - 1;
        }
        match path_parent(self.current_dir.as_str()) {
            Some(_) => {
                self.parent_entries = sort_entries(&parent_entries);
            },
            None => {
                self.parent_entries = Vec::new();
            },
        }
        self.filtered_indices = index_range(n);
    }

    /// Keeps visible only the entries whose lowercase name contains the
    /// lowercase query (all of them for an empty query), cursor at the top.
    pub fn filter(&mut self, query: &str)
        ensures
            filtered_by(*old(self), *final(self), query@),
    {
        if query.is_empty() {
            self.filtered_indices = index_range(self.current_entries.len());
        } else {
            let q = chars_of(to_lowercase(query).as_str());
            let ghost entries = self.current_entries@;
            let ghost pred = |i: usize| has_infix(lowercase(entries[i as int].name@), q@);
            let mut out: Vec<usize> = Vec::new();
            let mut i: usize = 0;
            proof {
                reveal(Seq::filter);
                assert(all_indices(0) =~= Seq::<usize>::empty());
            }
            while i < self.current_entries.len()
                invariant
                    i <= entries.len(),
                    entries == self.current_entries@,
                    pred == (|i: usize| has_infix(lowercase(entries[i as int].name@), q@)),
                    out@ == all_indices(i as nat).filter(pred),
                decreases entries.len() - i,
            {
                let name = lower_chars(&self.current_entries[i].name);
                let keep = chars_contain(&name, &q);
                proof {
                    assert(all_indices((i + 1) as nat) =~= all_indices(i as nat).push(i));
                    all_indices(i as nat).lemma_filter_push(i, pred);
                }
                if keep {
                    out.push(i);
                }
                i = i + 1;
            }
            self.filtered_indices = out;
        }
        self.selected_index = 0;
        self.scroll_offset = 0;
    }

    /// Goes to `new_dir`, showing the given listing of it and of its parent,
    /// cursor at the top.
    pub fn set_dir(&mut self, new_dir: String, entries: Vec<FileItem>, parent_entries: Vec<FileItem>)
        ensures
            dir_set(*old(self), *final(self), new_dir, entries@, parent_entries@),
    {
        self.current_dir = new_dir;
        self.selected_index = 0;
        self.scroll_offset = 0;
        self.refresh(entries, parent_entries);
    }

    /// The directory that `enter_dir` goes into: the entry under the cursor,
    /// when it is a directory.
    pub fn enter_target(&self) -> (r: Option<String>)
        ensures
            r == (match self.selected_entry() {
                Some(e) => if e.is_dir {
                    Some(e.path)
                } else {
                    None
                },
                None => None,
            }),
    {
        if self.selected_index < self.filtered_indices.len() {
            let actual = self.filtered_indices[self.selected_index];
            if actual < self.current_entries.len() {
                let selected = &self.current_entries[actual];
                if selected.is_dir {
                    return Some(selected.path.clone());
                }
            }
        }
        None
    }

    /// Enters the directory under the cursor, if it is one: remembers the
    /// cursor of the directory it leaves, restores the cursor remembered for
    /// the one it enters (top of the list otherwise), and shows the given
    /// listing of it and of its parent.
    pub fn enter_dir(&mut self, entries: Vec<FileItem>, parent_entries: Vec<FileItem>)
        ensures
            entered_dir(*old(self), *final(self), entries@, parent_entries@),
    {
        if self.selected_index < self.filtered_indices.len() {
            let actual = self.filtered_indices[self.selected_index];
            if actual < self.current_entries.len() {
                if self.current_entries[actual].is_dir {
                    let target = self.current_entries[actual].path.clone();
                    let here = self.current_dir.clone();
                    self.history.insert(
                        here,
                        DirState {
                            selected_index: self.selected_index,
                            scroll_offset: self.scroll_offset,
                        },
                    );
                    self.current_dir = target;
                    match self.history.get(&self.current_dir) {
                        Some(saved) => {
                            self.selected_index = saved.selected_index;
                            self.scroll_offset = saved.scroll_offset;
                        },
                        None => {
                            self.selected_index = 0;
                            self.scroll_offset = 0;
                        },
                    }
                    self.refresh(entries, parent_entries);
                }
            }
        }
    }

    /// The directory that `go_parent` goes to.
    pub fn parent_dir(&self) -> (r: Option<String>)
        ensures
            match r {
                Some(p) => parent_of(self.current_dir@) == Some(p@),
                None => parent_of(self.current_dir@) is None,
            },
    {
        path_parent(self.current_dir.as_str())
    }

    /// Goes to the parent directory, if there is one, showing the given
    /// listing of it and of its own parent, with the cursor on the directory
    /// it came from (top of the list when that is not listed).
    pub fn go_parent(&mut self, entries: Vec<FileItem>, parent_entries: Vec<FileItem>)
        ensures
            went_to_parent(*old(self), *final(self), entries@, parent_entries@),
    {
        match path_parent(self.current_dir.as_str()) {
            Some(parent) => {
                let previous_dir_name = path_file_name(self.current_dir.as_str());
                self.current_dir = parent;
                self.refresh(entries, parent_entries);
                let i = position_named(&self.current_entries, &previous_dir_name);
                let found = i < self.current_entries.len();
                if found {
                    self.selected_index = i;
                } else {
                    self.selected_index = 0;
                }
                self.filtered_indices = index_range(self.current_entries.len());
            },
            None => {},
        }
    }

    /// Moves the cursor one entry down, scrolling when it would leave the
    /// `visible_rows` shown; returns the new selected path, or `None` when
    /// the cursor is already on the last visible entry.
    pub fn move_down(&mut self, visible_rows: usize) -> (r: Option<String>)
        ensures
            moved_down(*old(self), *final(self), visible_rows),
            r == (if old(self).selected_index + 1 < old(self).filtered_indices@.len() {
                final(self).selected_path()
            } else {
                None
            }),
    {
        let n = self.filtered_indices.len();
        if n > 0 && self.selected_index < n - 1 {
            self.selected_index = self.selected_index + 1;
            if self.selected_index >= self.scroll_offset && self.selected_index - self.scroll_offset
                >= visible_rows {
                self.scroll_offset = self.scroll_offset + 1;
            }
            return self.get_selected_path();
        }
        None
    }

    /// Moves the cursor one entry up, scrolling when it would leave the top;
    /// returns the new selected path, or `None` at the top.
    pub fn move_up(&mut self) -> (r: Option<String>)
        ensures
            moved_up(*old(self), *final(self)),
            r == (if old(self).selected_index > 0 {
                final(self).selected_path()
            } else {
                None
            }),
    {
        if self.selected_index > 0 {
            self.selected_index = self.selected_index - 1;
            if self.selected_index < self.scroll_offset {
                self.scroll_offset = self.scroll_offset - 1;
            }
            return self.get_selected_path();
        }
        None
    }

    /// The path of the entry under the cursor.
    pub fn get_selected_path(&self) -> (r: Option<String>)
        ensures
            r == self.selected_path(),
    {
        if self.selected_index < self.filtered_indices.len() {
            let actual = self.filtered_indices[self.selected_index];
            if actual < self.current_entries.len() {
                return Some(self.current_entries[actual].path.clone());
            }
        }
        None
    }
}


// ---------------------------------------------------------------------------
// Properties across operations
// ---------------------------------------------------------------------------

proof fn lemma_first_named_bounds(s: Seq<FileItem>, name: Seq<char>)
    ensures
        0 <= first_named(s, name) <= s.len(),
        first_named(s, name) < s.len() ==> s[first_named(s, name)].name@ == name,
    decreases s.len(),
{
    if s.len() > 0 && s[0].name@ != name {
        lemma_first_named_bounds(s.drop_first(), name);
        if first_named(s, name) < s.len() {
            assert(s[first_named(s, name)] == s.drop_first()[first_named(s, name) - 1]);
        }
    }
}

/// Entering a directory and going back up returns to the directory left,
/// with the cursor on the directory just visited (when the listing still
/// holds an entry of that name; at the top otherwise).
pub proof fn lemma_back_to_origin(
    pre: MillerState,
    mid: MillerState,
    post: MillerState,
    e1: Seq<FileItem>,
    p1: Seq<FileItem>,
    e2: Seq<FileItem>,
    p2: Seq<FileItem>,
)
    requires
        pre.selected_entry() matches Some(t) && t.is_dir && parent_of(t.path@) == Some(
            pre.current_dir@,
        ),
        entered_dir(pre, mid, e1, p1),
        went_to_parent(mid, post, e2, p2),
    ensures
        ({
            let name = file_name_of(pre.selected_entry()->0.path@);
            &&& post.current_dir@ == pre.current_dir@
            &&& post.shows_listing(pre.current_dir@, e2, p2)
            &&& first_named(post.current_entries@, name) < e2.len() ==> post.selected_index
                < post.current_entries@.len() && post.current_entries@[post.selected_index as int].name@
                == name
            &&& first_named(post.current_entries@, name) >= e2.len() ==> post.selected_index == 0
        }),
{
    let t = pre.selected_entry()->0;
    assert(mid.current_dir == t.path);
    assert(parent_of(mid.current_dir@) == Some(pre.current_dir@));
    assert(post.current_dir@ == pre.current_dir@);
    lemma_first_named_bounds(post.current_entries@, file_name_of(t.path@));
    assert(post.current_entries@.len() == e2.len());
    assert(post.current_entries.len() == post.current_entries@.len());
}

/// The cursor remembered when a directory is left by entering one of its
/// entries comes back when the directory is entered again, as long as the
/// memory was not touched in between.
pub proof fn lemma_history_restores(
    pre: MillerState,
    mid: MillerState,
    later: MillerState,
    post: MillerState,
    e1: Seq<FileItem>,
    p1: Seq<FileItem>,
    e2: Seq<FileItem>,
    p2: Seq<FileItem>,
)
    requires
        pre.selected_entry() matches Some(t) && t.is_dir,
        entered_dir(pre, mid, e1, p1),
        later.history@ == mid.history@,
        later.selected_entry() matches Some(u) && u.is_dir && u.path@ == pre.current_dir@,
        later.current_dir@ != pre.current_dir@,
        entered_dir(later, post, e2, p2),
    ensures
        post.current_dir@ == pre.current_dir@,
        post.selected_index == clamp_selection(pre.selected_index, e2.len()),
        post.scroll_offset == pre.scroll_offset,
{
}

/// Filtering keeps an increasing sequence increasing.
proof fn lemma_filter_increasing(s: Seq<usize>, p: spec_fn(usize) -> bool)
    requires
        forall|a: int, b: int| 0 <= a < b < s.len() ==> s[a] < s[b],
    ensures
        forall|a: int, b: int|
            0 <= a < b < s.filter(p).len() ==> s.filter(p)[a] < s.filter(p)[b],
    decreases s.len(),
{
    reveal(Seq::filter);
    if s.len() > 0 {
        let t = s.drop_last();
        lemma_filter_increasing(t, p);
        let ft = t.filter(p);
        if p(s.last()) {
            assert(s.filter(p) == ft.push(s.last()));
            assert forall|k: int| 0 <= k < ft.len() implies ft[k] < s.last() by {
                assert(ft.contains(ft[k]));
                t.lemma_filter_contains_rev(p, ft[k]);
                let j = choose|j: int| 0 <= j < t.len() && t[j] == ft[k];
                assert(t[j] == s[j]);
            }
        } else {
            assert(s.filter(p) == ft);
        }
    }
}

/// The filter shows exactly the entries whose lowercase name contains the
/// query, each once, in listing order.
pub proof fn lemma_filter_exact(entries: Seq<FileItem>, query_lower: Seq<char>)
    requires
        entries.len() <= usize::MAX,
    ensures
        forall|k: int|
            0 <= k < matching_indices(entries, query_lower).len() ==> #[trigger] matching_indices(
                entries,
                query_lower,
            )[k] < entries.len(),
        forall|i: int|
            0 <= i < entries.len() ==> (matching_indices(entries, query_lower).contains(i as usize)
                <==> has_infix(lowercase(entries[i].name@), query_lower)),
        forall|a: int, b: int|
            0 <= a < b < matching_indices(entries, query_lower).len() ==> matching_indices(
                entries,
                query_lower,
            )[a] < matching_indices(entries, query_lower)[b],
{
    let all = all_indices(entries.len());
    let pred = |i: usize| has_infix(lowercase(entries[i as int].name@), query_lower);
    let m = all.filter(pred);
    lemma_filter_increasing(all, pred);
    assert forall|k: int| 0 <= k < m.len() implies #[trigger] m[k] < entries.len() by {
        all.lemma_filter_contains_rev(pred, m[k]);
        assert(m.contains(m[k]));
    }
    assert forall|i: int| 0 <= i < entries.len() implies (m.contains(i as usize) <==> has_infix(
        lowercase(entries[i].name@),
        query_lower,
    )) by {
        assert(all[i] == i as usize);
        if pred(i as usize) {
            all.lemma_filter_contains(pred, i);
        }
        if m.contains(i as usize) {
            let k = choose|k: int| 0 <= k < m.len() && m[k] == i as usize;
            all.lemma_filter_pred(pred, k);
        }
    }
}

/// The cursor stays inside the visible list and on screen: when it is on
/// one of the `visible_rows` shown from the scroll position, it still is
/// after moving down or up.
pub proof fn lemma_cursor_stays_visible(
    pre: MillerState,
    down: MillerState,
    up: MillerState,
    visible_rows: usize,
)
    requires
        pre.selected_index < pre.filtered_indices@.len(),
        pre.scroll_offset <= pre.selected_index < pre.scroll_offset + visible_rows,
        moved_down(pre, down, visible_rows),
        moved_up(pre, up),
    ensures
        down.selected_index < down.filtered_indices@.len(),
        down.scroll_offset <= down.selected_index < down.scroll_offset + visible_rows,
        up.selected_index < up.filtered_indices@.len(),
        up.scroll_offset <= up.selected_index < up.scroll_offset + visible_rows,
{
}

/// A state showing a listing with the cursor inside it (as `new` makes one)
/// has the navigation invariant.
pub proof fn lemma_listing_invariant(post: MillerState, dir: Seq<char>, entries: Seq<FileItem>, parent_entries: Seq<FileItem>)
    requires
        entries.len() <= usize::MAX,
        post.shows_listing(dir, entries, parent_entries),
        entries.len() == 0 ==> post.selected_index == 0,
        entries.len() > 0 ==> post.selected_index < entries.len(),
    ensures
        nav_invariant(post),
{
}

/// Every navigation step keeps the navigation invariant: showing a listing
/// again, going to a directory, filtering, entering a directory, going to
/// the parent, and moving the cursor.
pub proof fn lemma_navigation_invariant(
    pre: MillerState,
    refreshed_s: MillerState,
    set_s: MillerState,
    filtered_s: MillerState,
    entered_s: MillerState,
    parent_s: MillerState,
    down_s: MillerState,
    up_s: MillerState,
    dir: String,
    query: Seq<char>,
    visible_rows: usize,
    e1: Seq<FileItem>,
    p1: Seq<FileItem>,
    e2: Seq<FileItem>,
    p2: Seq<FileItem>,
    e3: Seq<FileItem>,
    p3: Seq<FileItem>,
    e4: Seq<FileItem>,
    p4: Seq<FileItem>,
)
    requires
        nav_invariant(pre),
        pre.current_entries@.len() <= usize::MAX,
        e1.len() <= usize::MAX,
        e2.len() <= usize::MAX,
        e3.len() <= usize::MAX,
        e4.len() <= usize::MAX,
        refreshed(pre, refreshed_s, e1, p1),
        dir_set(pre, set_s, dir, e2, p2),
        filtered_by(pre, filtered_s, query),
        entered_dir(pre, entered_s, e3, p3),
        went_to_parent(pre, parent_s, e4, p4),
        moved_down(pre, down_s, visible_rows),
        moved_up(pre, up_s),
    ensures
        nav_invariant(refreshed_s),
        nav_invariant(set_s),
        nav_invariant(filtered_s),
        nav_invariant(entered_s),
        nav_invariant(parent_s),
        nav_invariant(down_s),
        nav_invariant(up_s),
{
    lemma_listing_invariant(refreshed_s, pre.current_dir@, e1, p1);
    lemma_listing_invariant(set_s, dir@, e2, p2);
    if query.len() > 0 {
        lemma_filter_exact(pre.current_entries@, lowercase(query));
    }
    match pre.selected_entry() {
        Some(t) if t.is_dir => {
            lemma_listing_invariant(entered_s, t.path@, e3, p3);
        },
        _ => {},
    }
    match parent_of(pre.current_dir@) {
        Some(p) => {
            lemma_first_named_bounds(parent_s.current_entries@, file_name_of(pre.current_dir@));
            lemma_listing_invariant(parent_s, p, e4, p4);
        },
        None => {},
    }
}

/// Under the navigation invariant, the cursor is on an entry exactly when
/// some entry is visible.
pub proof fn lemma_selection_present(s: MillerState)
    requires
        nav_invariant(s),
    ensures
        (s.selected_path() is Some) <==> s.filtered_indices@.len() > 0,
{
}

proof fn lemma_seq_le_antisymmetric(a: Seq<char>, b: Seq<char>)
    requires
        seq_le(a, b),
        seq_le(b, a),
    ensures
        a == b,
    decreases a.len(),
{
    if a.len() > 0 && b.len() > 0 {
        assert(a[0] == b[0]);
        lemma_seq_le_antisymmetric(a.drop_first(), b.drop_first());
        assert(a.len() == b.len());
        assert(a =~= b) by {
            assert forall|i: int| 0 <= i < a.len() implies a[i] == b[i] by {
                if i > 0 {
                    assert(a[i] == a.drop_first()[i - 1]);
                    assert(b[i] == b.drop_first()[i - 1]);
                }
            }
        }
    } else {
        assert(a =~= b);
    }
}

proof fn lemma_filter_last(s: Seq<FileItem>, p: spec_fn(FileItem) -> bool)
    requires
        s.len() > 0,
    ensures
        s.filter(p) == (if p(s.last()) {
            s.drop_last().filter(p).push(s.last())
        } else {
            s.drop_last().filter(p)
        }),
{
    reveal(Seq::filter);
}

/// Two orderings of the same entries that are both in listing order, with
/// the entries of each key in the same order, are the same.
proof fn lemma_sorted_unique(a: Seq<FileItem>, b: Seq<FileItem>)
    requires
        sorted_by_key(a),
        sorted_by_key(b),
        forall|k: (bool, Seq<char>)| #[trigger] a.filter(with_key(k)) == b.filter(with_key(k)),
    ensures
        a == b,
    decreases a.len() + b.len(),
{
    reveal(Seq::filter);
    lemma_key_le_facts();
    if a.len() == 0 && b.len() == 0 {
        assert(a =~= b);
    } else if a.len() == 0 {
        let k = entry_key(b.last());
        b.lemma_filter_contains(with_key(k), b.len() - 1);
        assert(a.filter(with_key(k)) == b.filter(with_key(k)));
    } else if b.len() == 0 {
        let k = entry_key(a.last());
        a.lemma_filter_contains(with_key(k), a.len() - 1);
        assert(a.filter(with_key(k)) == b.filter(with_key(k)));
    } else {
        let x = a.last();
        let y = b.last();
        let kx = entry_key(x);
        let ky = entry_key(y);
        a.lemma_filter_contains(with_key(kx), a.len() - 1);
        assert(a.filter(with_key(kx)) == b.filter(with_key(kx)));
        b.lemma_filter_contains_rev(with_key(kx), x);
        let j = choose|j: int| 0 <= j < b.len() && b[j] == x;
        if j < b.len() - 1 {
            assert(key_le(entry_key(b[j]), entry_key(b[b.len() - 1])));
        }
        assert(key_le(kx, ky));
        b.lemma_filter_contains(with_key(ky), b.len() - 1);
        assert(a.filter(with_key(ky)) == b.filter(with_key(ky)));
        a.lemma_filter_contains_rev(with_key(ky), y);
        let i = choose|i: int| 0 <= i < a.len() && a[i] == y;
        if i < a.len() - 1 {
            assert(key_le(entry_key(a[i]), entry_key(a[a.len() - 1])));
        }
        assert(key_le(ky, kx));
        lemma_seq_le_antisymmetric(kx.1, ky.1);
        assert(kx == ky);
        let a2 = a.drop_last();
        let b2 = b.drop_last();
        lemma_filter_last(a, with_key(kx));
        lemma_filter_last(b, with_key(kx));
        assert(a2.filter(with_key(kx)).push(x) == b2.filter(with_key(kx)).push(y));
        assert(x == a2.filter(with_key(kx)).push(x).last());
        assert(x == y);
        assert(a2.filter(with_key(kx)) =~= a2.filter(with_key(kx)).push(x).drop_last());
        assert(b2.filter(with_key(kx)) =~= b2.filter(with_key(kx)).push(y).drop_last());
        assert forall|k: (bool, Seq<char>)| #[trigger] a2.filter(with_key(k)) == b2.filter(
            with_key(k),
        ) by {
            lemma_filter_last(a, with_key(k));
            lemma_filter_last(b, with_key(k));
            assert(a.filter(with_key(k)) == b.filter(with_key(k)));
            if k != kx {
                assert(!with_key(k)(x));
            }
        }
        assert(sorted_by_key(a2));
        assert(sorted_by_key(b2));
        lemma_sorted_unique(a2, b2);
        assert(a =~= a2.push(x));
        assert(b =~= b2.push(y));
    }
}

/// The listing order of a set of entries is unique.
pub proof fn lemma_listing_unique(items: Seq<FileItem>, a: Seq<FileItem>, b: Seq<FileItem>)
    requires
        listing_of(items, a),
        listing_of(items, b),
    ensures
        a == b,
{
    assert forall|k: (bool, Seq<char>)| #[trigger] a.filter(with_key(k)) == b.filter(with_key(k)) by {
        assert(a.filter(with_key(k)) == items.filter(with_key(k)));
        assert(b.filter(with_key(k)) == items.filter(with_key(k)));
    }
    lemma_sorted_unique(a, b);
}

/// Going to a directory gives the state that a fresh start there would
/// give for the same listing, but for the memory of cursors, which is kept.
pub proof fn lemma_set_dir_is_new(
    pre: MillerState,
    post: MillerState,
    fresh: MillerState,
    dir: String,
    entries: Seq<FileItem>,
    parent_entries: Seq<FileItem>,
)
    requires
        dir_set(pre, post, dir, entries, parent_entries),
        fresh.current_dir == dir,
        fresh.shows_listing(dir@, entries, parent_entries),
        fresh.selected_index == 0,
        fresh.scroll_offset == 0,
    ensures
        post.current_dir == fresh.current_dir,
        post.current_entries@ == fresh.current_entries@,
        post.parent_entries@ == fresh.parent_entries@,
        post.filtered_indices@ == fresh.filtered_indices@,
        post.selected_index == fresh.selected_index,
        post.scroll_offset == fresh.scroll_offset,
        post.history@ == pre.history@,
{
    lemma_listing_unique(entries, post.current_entries@, fresh.current_entries@);
    match parent_of(dir@) {
        Some(_) => {
            lemma_listing_unique(parent_entries, post.parent_entries@, fresh.parent_entries@);
        },
        None => {
            assert(post.parent_entries@ =~= fresh.parent_entries@);
        },
    }
}

/// Entering a directory and going back up, with no filter, distinct names
/// in the listing, and the directory left listed again with the same
/// entries, puts the cursor back on the same entry.
pub proof fn lemma_round_trip_restores_cursor(
    pre: MillerState,
    mid: MillerState,
    post: MillerState,
    e1: Seq<FileItem>,
    p1: Seq<FileItem>,
    e2: Seq<FileItem>,
    p2: Seq<FileItem>,
)
    requires
        pre.selected_entry() matches Some(t) && t.is_dir && parent_of(t.path@) == Some(
            pre.current_dir@,
        ) && t.name@ == file_name_of(t.path@),
        pre.current_entries@.len() <= usize::MAX,
        pre.filtered_indices@ == all_indices(pre.current_entries@.len()),
        forall|i: int, j: int|
            0 <= i < j < pre.current_entries@.len() ==> pre.current_entries@[i].name@
                != pre.current_entries@[j].name@,
        listing_of(e2, pre.current_entries@),
        entered_dir(pre, mid, e1, p1),
        went_to_parent(mid, post, e2, p2),
    ensures
        post.current_dir@ == pre.current_dir@,
        post.current_entries@ == pre.current_entries@,
        post.selected_index == pre.selected_index,
        post.selected_path() == pre.selected_path(),
{
    let t = pre.selected_entry()->0;
    let sel = pre.selected_index as int;
    assert(parent_of(mid.current_dir@) == Some(pre.current_dir@));
    lemma_listing_unique(e2, post.current_entries@, pre.current_entries@);
    assert(pre.filtered_indices@[sel] == sel as usize);
    assert(pre.current_entries@[sel] == t);
    assert forall|j: int| 0 <= j < sel implies post.current_entries@[j].name@ != t.name@ by {
        assert(post.current_entries@[j] == pre.current_entries@[j]);
    }
    lemma_first_named_is(post.current_entries@, t.name@, sel);
}

/// Filtering ignores the case of ASCII letters: two ASCII queries that
/// differ only in the case of their letters show the same entries.
pub proof fn lemma_filter_ignores_ascii_case(
    pre: MillerState,
    post1: MillerState,
    post2: MillerState,
    q1: Seq<char>,
    q2: Seq<char>,
)
    requires
        is_ascii_text(q1),
        is_ascii_text(q2),
        ascii_lowercase(q1) == ascii_lowercase(q2),
        filtered_by(pre, post1, q1),
        filtered_by(pre, post2, q2),
    ensures
        post1.filtered_indices@ == post2.filtered_indices@,
{
    assert(q1.len() == ascii_lowercase(q1).len());
    assert(q2.len() == ascii_lowercase(q2).len());
}

} // verus!
