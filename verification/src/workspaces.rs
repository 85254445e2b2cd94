//! The file manager's session state: navigation, input mode, pending key
//! sequences and the preview of the selected entry.

use vstd::prelude::*;
use crate::bus::WorkerEvent;
use crate::keys::Key;
use crate::text::{chars_of, has_infix, has_suffix, lines_of, lowercase, split_lines, str_ends_with, string_pop, string_push, chars_contain, to_lowercase};
use crate::paths::{file_name_of, path_file_name};
use crate::tree::{
    all_indices, entered_dir, filtered_by, index_range, listing_of, moved_down, moved_up,
    sort_entries, went_to_parent, DirState, FileItem, MillerState,
};

verus! {

/// How keys are read: as commands, or as text typed into the bottom bar
/// after a prefix character saying what the text is for.
pub enum AppMode {
    Normal,
    Omnibar { prefix: char, input_buffer: String },
}

/// `AppMode` with its text as characters.
pub enum ModeModel {
    Normal,
    Omnibar(char, Seq<char>),
}

pub open spec fn mode_of(m: AppMode) -> ModeModel {
    match m {
        AppMode::Normal => ModeModel::Normal,
        AppMode::Omnibar { prefix, input_buffer } => ModeModel::Omnibar(prefix, input_buffer@),
    }
}

/// What the preview column shows.
pub enum Preview {
    Dir(Vec<FileItem>),
    File(Vec<String>),
    Empty,
}

/// `Preview` as values.
pub enum PreviewModel {
    Dir(Seq<FileItem>),
    File(Seq<Seq<char>>),
    Empty,
}

pub open spec fn preview_of(p: Preview) -> PreviewModel {
    match p {
        Preview::Dir(v) => PreviewModel::Dir(v@),
        Preview::File(v) => PreviewModel::File(v@.map_values(|l: String| l@)),
        Preview::Empty => PreviewModel::Empty,
    }
}

/// A mounted remote directory, unmounted when the guard is dropped.
pub struct MountGuard {
    mount_point: String,
}

impl MountGuard {
    pub fn new(mount_point: &str) -> (r: Self)
        ensures
            r.mount_point()@ == mount_point@,
    {
        MountGuard { mount_point: mount_point.to_owned() }
    }

    pub closed spec fn mount_point(&self) -> String {
        self.mount_point
    }

    /// Where the directory is mounted.
    pub fn mount_point_path(&self) -> (r: &String)
        ensures
            *r == self.mount_point(),
    {
        &self.mount_point
    }
}

/// A known directory that `g` followed by a key jumps to.
#[derive(Clone, Copy, Debug, PartialEq, Eq, Structural)]
pub enum JumpTarget {
    Home,
    Downloads,
    Documents,
    Audio,
    Executables,
    Config,
    Pictures,
    Videos,
    Fonts,
    Templates,
    Desktop,
    Root,
}

/// The directory that `g` then `key` jumps to.
pub open spec fn jump_target_of(key: Key) -> Option<JumpTarget> {
    match key {
        Key::Char('h') => Some(JumpTarget::Home),
        Key::Char('x') => Some(JumpTarget::Downloads),
        Key::Char('d') => Some(JumpTarget::Documents),
        Key::Char('a') => Some(JumpTarget::Audio),
        Key::Char('b') => Some(JumpTarget::Executables),
        Key::Char('c') => Some(JumpTarget::Config),
        Key::Char('p') => Some(JumpTarget::Pictures),
        Key::Char('v') => Some(JumpTarget::Videos),
        Key::Char('f') => Some(JumpTarget::Fonts),
        Key::Char('t') => Some(JumpTarget::Templates),
        Key::Char('j') => Some(JumpTarget::Desktop),
        Key::Char('r') => Some(JumpTarget::Root),
        _ => None,
    }
}

/// The directory that `g` then `key` jumps to.
pub fn jump_target(key: Key) -> (r: Option<JumpTarget>)
    ensures
        r == jump_target_of(key),
{
    match key {
        Key::Char('h') => Some(JumpTarget::Home),
        Key::Char('x') => Some(JumpTarget::Downloads),
        Key::Char('d') => Some(JumpTarget::Documents),
        Key::Char('a') => Some(JumpTarget::Audio),
        Key::Char('b') => Some(JumpTarget::Executables),
        Key::Char('c') => Some(JumpTarget::Config),
        Key::Char('p') => Some(JumpTarget::Pictures),
        Key::Char('v') => Some(JumpTarget::Videos),
        Key::Char('f') => Some(JumpTarget::Fonts),
        Key::Char('t') => Some(JumpTarget::Templates),
        Key::Char('j') => Some(JumpTarget::Desktop),
        Key::Char('r') => Some(JumpTarget::Root),
        _ => None,
    }
}

/// What `n` followed by a key creates.
#[derive(Clone, Copy, Debug, PartialEq, Eq, Structural)]
pub enum CreateKind {
    Dir,
    File,
    Archive,
    Hardlink,
    Symlink,
}

/// What the program loop does after a key: the state change itself is done.
pub enum MainAction {
    /// Nothing more than drawing again.
    Redraw,
    /// Clear the screen, then draw again.
    ClearScreen,
    Quit,
    /// Go to a known directory, if it exists.
    Jump(JumpTarget),
    /// Open the current file in the viewer.
    OpenViewer,
    /// `move_down(20)` (the cursor key).
    MoveDown,
    MoveUp,
    EnterDir,
    GoParent,
    /// Read the current directory again.
    Refresh,
    /// Clear the screen and compute the preview again.
    UpdatePreview,
    Rename { from: String, to: String },
    /// Create something named `name` in the current directory.
    Create { kind: CreateKind, name: String },
    /// Ask the worker for a deep search.
    DeepSearch { query: String, dir: String, search_id: usize },
}

/// The pending key-sequence flags.
pub struct PendingFlags {
    pub g: bool,
    pub create: bool,
    pub dir: bool,
    pub file: bool,
    pub archive: bool,
    pub hardlink: bool,
    pub symlink: bool,
}

/// The kind of thing that the bottom bar names, when a creation is pending.
pub open spec fn pending_kind(f: PendingFlags) -> Option<CreateKind> {
    if f.dir {
        Some(CreateKind::Dir)
    } else if f.file {
        Some(CreateKind::File)
    } else if f.archive {
        Some(CreateKind::Archive)
    } else if f.hardlink {
        Some(CreateKind::Hardlink)
    } else if f.symlink {
        Some(CreateKind::Symlink)
    } else {
        None
    }
}

/// Flags with no creation pending.
pub open spec fn without_creation(f: PendingFlags) -> PendingFlags {
    PendingFlags { dir: false, file: false, archive: false, hardlink: false, symlink: false, ..f }
}

/// The session state of the file manager.
pub struct Workspace {
    pub miller: MillerState,
    pub mode: AppMode,
    pub active_pane: usize,
    pub search_id: usize,
    pub current_perms: String,
    pub current_preview: Vec<String>,
    pub pending_g: bool,
    pub pending_create: bool,
    pub pending_create_dir: bool,
    pub pending_create_file: bool,
    pub pending_create_archive: bool,
    pub pending_create_hardlink: bool,
    pub pending_create_symlink: bool,
    pub panes: Vec<MillerState>,
    pub preview: Preview,
}

pub open spec fn flags_of(w: Workspace) -> PendingFlags {
    PendingFlags {
        g: w.pending_g,
        create: w.pending_create,
        dir: w.pending_create_dir,
        file: w.pending_create_file,
        archive: w.pending_create_archive,
        hardlink: w.pending_create_hardlink,
        symlink: w.pending_create_symlink,
    }
}

/// Everything but the mode and the pending flags is the same.
pub open spec fn same_but_keys(a: Workspace, b: Workspace) -> bool {
    &&& b.miller == a.miller
    &&& b.active_pane == a.active_pane
    &&& b.search_id == a.search_id
    &&& b.current_perms == a.current_perms
    &&& b.current_preview == a.current_preview
    &&& b.panes == a.panes
    &&& b.preview == a.preview
}

/// Everything but the current directory's entries and its filter is the
/// same.
pub open spec fn same_but_entries(a: Workspace, b: Workspace) -> bool {
    &&& b.miller.current_dir == a.miller.current_dir
    &&& b.miller.parent_entries == a.miller.parent_entries
    &&& b.miller.history == a.miller.history
    &&& b.miller.selected_index == a.miller.selected_index
    &&& b.miller.scroll_offset == a.miller.scroll_offset
    &&& b.mode == a.mode
    &&& flags_of(b) == flags_of(a)
    &&& b.active_pane == a.active_pane
    &&& b.search_id == a.search_id
    &&& b.current_perms == a.current_perms
    &&& b.current_preview == a.current_preview
    &&& b.panes == a.panes
    &&& b.preview == a.preview
}

/// Everything but the navigation state and the preview is the same.
pub open spec fn same_but_view(a: Workspace, b: Workspace) -> bool {
    &&& b.mode == a.mode
    &&& flags_of(b) == flags_of(a)
    &&& b.active_pane == a.active_pane
    &&& b.search_id == a.search_id
    &&& b.current_perms == a.current_perms
    &&& b.current_preview == a.current_preview
    &&& b.panes == a.panes
}

/// `post` is `pre` with the given mode and flags.
pub open spec fn keyed(pre: Workspace, post: Workspace, mode: ModeModel, flags: PendingFlags) -> bool {
    &&& same_but_keys(pre, post)
    &&& mode_of(post.mode) == mode
    &&& flags_of(post) == flags
}

/// What a key does in normal mode (no `g` pending): `r` is the action asked
/// of the program loop; `is_file` and `name` describe the current entry.
pub open spec fn normal_key(
    pre: Workspace,
    post: Workspace,
    key: Key,
    is_file: bool,
    name: Seq<char>,
    r: MainAction,
) -> bool {
    let fl = flags_of(pre);
    let bar = |p: char| ModeModel::Omnibar(p, Seq::<char>::empty());
    if key == Key::F(2) {
        if is_file {
            keyed(pre, post, ModeModel::Omnibar('*', name), fl) && r is Redraw
        } else {
            post == pre && r is Redraw
        }
    } else if key == Key::Char('/') {
        keyed(pre, post, bar('/'), fl) && r is Redraw
    } else if key == Key::Char('?') {
        keyed(pre, post, bar('?'), fl) && r is Redraw
    } else if fl.create && key == Key::Char('d') {
        keyed(pre, post, bar('+'), PendingFlags { create: false, dir: true, ..fl }) && r is Redraw
    } else if fl.create && key == Key::Char('f') {
        keyed(pre, post, bar('+'), PendingFlags { create: false, file: true, ..fl }) && r is Redraw
    } else if fl.create && key == Key::Char('a') {
        keyed(pre, post, bar('+'), PendingFlags { create: false, archive: true, ..fl })
            && r is Redraw
    } else if fl.create && key == Key::Char('h') {
        keyed(pre, post, bar('+'), PendingFlags { create: false, hardlink: true, ..fl })
            && r is Redraw
    } else if fl.create && key == Key::Char('s') {
        keyed(pre, post, bar('+'), PendingFlags { create: false, symlink: true, ..fl })
            && r is Redraw
    } else if key == Key::Char('f') || key == Key::Char('a') || key == Key::Char('s') || key
        == Key::Char('p') {
        keyed(pre, post, bar('+'), fl) && r is Redraw
    } else if key == Key::Enter {
        post == pre && (if is_file {
            r is OpenViewer
        } else {
            r is Redraw
        })
    } else if key == Key::Char('q') {
        post == pre && r is Quit
    } else if key == Key::Char('j') || key == Key::Down {
        post == pre && r is MoveDown
    } else if key == Key::Char('k') || key == Key::Up {
        post == pre && r is MoveUp
    } else if key == Key::Char('l') || key == Key::Right || key == Key::Char(' ') {
        post == pre && r is EnterDir
    } else if key == Key::Char('h') || key == Key::Left || key == Key::Backspace {
        post == pre && r is GoParent
    } else if key == Key::Char('n') {
        keyed(pre, post, mode_of(pre.mode), PendingFlags { create: true, ..fl }) && r is Redraw
    } else if key == Key::Char('g') {
        keyed(pre, post, mode_of(pre.mode), PendingFlags { g: true, ..fl }) && r is Redraw
    } else if key == Key::F(5) {
        post == pre && r is Refresh
    } else {
        keyed(pre, post, mode_of(pre.mode), PendingFlags { create: false, g: false, ..fl })
            && r is Redraw
    }
}

/// What a key does while text is typed into the bottom bar after `prefix`.
pub open spec fn omnibar_key(
    pre: Workspace,
    post: Workspace,
    prefix: char,
    text: Seq<char>,
    key: Key,
    is_file: bool,
    name: Seq<char>,
    r: MainAction,
) -> bool {
    let fl = flags_of(pre);
    match key {
        Key::Esc => {
            &&& mode_of(post.mode) == ModeModel::Normal
            &&& flags_of(post) == without_creation(fl)
            &&& if prefix == '/' {
                &&& filtered_by(pre.miller, post.miller, Seq::empty())
                &&& post.preview == pre.preview
                &&& post.search_id == pre.search_id
                &&& r is UpdatePreview
            } else {
                &&& same_but_keys(pre, post)
                &&& if prefix == '*' {
                    r is Refresh
                } else {
                    r is ClearScreen
                }
            }
        },
        Key::Enter => {
            &&& same_but_keys(pre, post)
            &&& mode_of(post.mode) == ModeModel::Normal
            &&& if prefix == '*' && is_file {
                &&& flags_of(post) == fl
                &&& r matches MainAction::Rename { from, to } && from@ == name && to@ == text
            } else if prefix == '+' && pending_kind(fl) is Some {
                &&& flags_of(post) == without_creation(fl)
                &&& r matches MainAction::Create { kind, name: n } && kind == pending_kind(fl)->0
                    && n@ == text
            } else {
                &&& flags_of(post) == fl
                &&& r is ClearScreen
            }
        },
        Key::Backspace => {
            let t = if text.len() > 0 {
                text.drop_last()
            } else {
                text
            };
            &&& mode_of(post.mode) == ModeModel::Omnibar(prefix, t)
            &&& flags_of(post) == fl
            &&& r is Redraw
            &&& if prefix == '/' {
                &&& filtered_by(pre.miller, post.miller, t)
                &&& post.preview == pre.preview
                &&& post.search_id == pre.search_id
            } else {
                same_but_keys(pre, post)
            }
        },
        Key::Char(c) => {
            let t = text.push(c);
            &&& mode_of(post.mode) == ModeModel::Omnibar(prefix, t)
            &&& flags_of(post) == fl
            &&& if prefix == '/' {
                &&& filtered_by(pre.miller, post.miller, t)
                &&& post.preview == pre.preview
                &&& post.search_id == pre.search_id
                &&& r is ClearScreen
            } else if prefix == '?' {
                &&& post.search_id == pre.search_id + 1
                &&& post.miller.current_entries@.len() == 0
                &&& post.miller.filtered_indices@.len() == 0
                &&& post.miller.current_dir == pre.miller.current_dir
                &&& post.miller.parent_entries == pre.miller.parent_entries
                &&& post.miller.history == pre.miller.history
                &&& post.miller.selected_index == pre.miller.selected_index
                &&& post.miller.scroll_offset == pre.miller.scroll_offset
                &&& post.preview == pre.preview
                &&& r matches MainAction::DeepSearch { query, dir, search_id } && query@ == t
                    && dir == pre.miller.current_dir && search_id == pre.search_id + 1
            } else {
                &&& same_but_keys(pre, post)
                &&& r is Redraw
            }
        },
        _ => post == pre && r is Redraw,
    }
}

/// A key can be handled: a new deep search needs a fresh search number.
pub open spec fn main_key_ready(w: Workspace, key: Key) -> bool {
    (!w.pending_g && (mode_of(w.mode) matches ModeModel::Omnibar(p, _) && p == '?') && key is Char)
        ==> w.search_id < usize::MAX
}

/// Items of the batches that answer search `id`, in arrival order.
pub open spec fn answering_items(events: Seq<WorkerEvent>, id: usize) -> Seq<FileItem>
    decreases events.len(),
{
    if events.len() == 0 {
        Seq::empty()
    } else {
        let rest = answering_items(events.drop_last(), id);
        match events.last() {
            WorkerEvent::SearchResultBatch { items, search_id } => if search_id == id {
                rest + items@
            } else {
                rest
            },
        }
    }
}

/// Some batch answers search `id`.
pub open spec fn answers(events: Seq<WorkerEvent>, id: usize) -> bool {
    exists|i: int|
        0 <= i < events.len() && (#[trigger] events[i] matches WorkerEvent::SearchResultBatch {
            search_id,
            ..
        } && search_id == id)
}

/// The first `n` lines of a text.
pub open spec fn first_lines(text: Seq<char>, n: nat) -> Seq<Seq<char>> {
    if lines_of(text).len() <= n {
        lines_of(text)
    } else {
        lines_of(text).take(n as int)
    }
}

/// What the file system reported for the selected entry, as the preview
/// needs it.
pub enum PreviewSource {
    /// Nothing is selected, or the selection is neither directory nor file.
    Nothing,
    /// The entries of the selected directory (none when it cannot be read).
    DirEntries(Vec<FileItem>),
    /// The member names of the selected archive (none when it cannot be
    /// read).
    ArchiveEntries(Vec<String>),
    /// The text of the selected file.
    Text(String),
    /// The selected file is not text.
    Unreadable { is_executable: bool },
}

/// What the preview needs read for the selected entry.
pub enum PreviewTarget {
    Nothing,
    Dir(String),
    Archive(String),
    Text(String),
}

/// `r` is what the preview needs read for the entry under the cursor of
/// `m`: a directory's entries, an archive's members (for a `.tar.gz` file)
/// or a file's text.
pub open spec fn targets(m: MillerState, r: PreviewTarget) -> bool {
    match m.selected_entry() {
        Some(e) => if e.is_dir {
            r matches PreviewTarget::Dir(p) && p == e.path
        } else if e.is_file {
            if has_suffix(file_name_of(e.path@), ".tar.gz"@) {
                r matches PreviewTarget::Archive(p) && p == e.path
            } else {
                r matches PreviewTarget::Text(p) && p == e.path
            }
        } else {
            r is Nothing
        },
        None => r is Nothing,
    }
}

/// What the preview needs read for the entry under the cursor of `m`.
pub fn selection_target(m: &MillerState) -> (r: PreviewTarget)
    ensures
        targets(*m, r),
{
    if m.selected_index < m.filtered_indices.len() {
        let actual = m.filtered_indices[m.selected_index];
        if actual < m.current_entries.len() {
            let e = &m.current_entries[actual];
            if e.is_dir {
                return PreviewTarget::Dir(e.path.clone());
            } else if e.is_file {
                let name = path_file_name(e.path.as_str());
                if str_ends_with(name.as_str(), ".tar.gz") {
                    return PreviewTarget::Archive(e.path.clone());
                } else {
                    return PreviewTarget::Text(e.path.clone());
                }
            }
        }
    }
    PreviewTarget::Nothing
}

/// An archive member, as the preview lists it.
pub open spec fn member_item(name: Seq<char>, item: FileItem) -> bool {
    &&& item.path@ == name
    &&& item.name@ == name
    &&& !item.is_dir
    &&& item.is_file
    &&& !item.is_executable
    &&& !item.is_symlink
}

/// The preview for what was read.
pub open spec fn preview_for(source: PreviewSource, post: PreviewModel) -> bool {
    match source {
        PreviewSource::Nothing => post is Empty,
        PreviewSource::DirEntries(es) => post matches PreviewModel::Dir(d) && listing_of(es@, d),
        PreviewSource::ArchiveEntries(names) => post matches PreviewModel::Dir(d) && d.len()
            == names@.len() && forall|i: int|
            0 <= i < d.len() ==> member_item(#[trigger] names@[i]@, d[i]),
        PreviewSource::Text(t) => post == PreviewModel::File(first_lines(t@, 50)),
        PreviewSource::Unreadable { is_executable } => if is_executable {
            post == PreviewModel::File(seq!["Bin file..."@])
        } else {
            post is Empty
        },
    }
}

/// A deep-search hit: the lowercase file name contains the lowercase query.
pub fn name_matches_query(file_name: &str, query: &str) -> (r: bool)
    ensures
        r == has_infix(lowercase(file_name@), lowercase(query@)),
{
    let n = chars_of(to_lowercase(file_name).as_str());
    let q = chars_of(to_lowercase(query).as_str());
    chars_contain(&n, &q)
}

impl Workspace {
    /// A session showing `start_dir` with the given listing of it and of
    /// its parent, in normal mode, nothing pending, no cursor remembered,
    /// previewing what `source` reports for the selected entry (what
    /// `selection_target` asks of `MillerState::new` on the same listing).
    pub fn new(
        start_dir: String,
        entries: Vec<FileItem>,
        parent_entries: Vec<FileItem>,
        source: PreviewSource,
    ) -> (r: Self)
        ensures
            r.miller.current_dir == start_dir,
            r.miller.shows_listing(start_dir@, entries@, parent_entries@),
            r.miller.selected_index == 0,
            r.miller.scroll_offset == 0,
            r.miller.history@ == Map::<Seq<char>, DirState>::empty(),
            mode_of(r.mode) == ModeModel::Normal,
            r.active_pane == 1,
            r.search_id == 0,
            r.current_perms@ == "rwxr-xr-x"@,
            r.current_preview@.len() == 0,
            flags_of(r) == (PendingFlags {
                g: false,
                create: false,
                dir: false,
                file: false,
                archive: false,
                hardlink: false,
                symlink: false,
            }),
            r.panes@.len() == 0,
            preview_for(source, preview_of(r.preview)),
    {
        let miller = MillerState::new(start_dir, entries, parent_entries);
        let mut ws = Workspace {
            miller,
            mode: AppMode::Normal,
            active_pane: 1,
            preview: Preview::Empty,
            current_perms: String::from_str("rwxr-xr-x"),
            current_preview: Vec::new(),
            pending_g: false,
            pending_create: false,
            pending_create_dir: false,
            pending_create_file: false,
            pending_create_archive: false,
            pending_create_hardlink: false,
            pending_create_symlink: false,
            panes: Vec::new(),
            search_id: 0,
        };
        ws.update_preview(source);
        ws
    }

    /// Drops the preview (the screen itself is cleared by the caller).
    pub fn clear(&mut self)
        ensures
            preview_of(final(self).preview) is Empty,
            final(self).miller == old(self).miller,
            same_but_view(*old(self), *final(self)),
    {
        self.preview = Preview::Empty;
    }

    /// Moves the cursor down (see `MillerState::move_down`); when it moved,
    /// the preview is dropped and `true` says that it must be computed
    /// again.
    pub fn move_down(&mut self, visible_rows: usize) -> (moved: bool)
        ensures
            moved == (old(self).miller.selected_index + 1 < old(self).miller.filtered_indices@.len()
                && final(self).miller.selected_path() is Some),
            moved_down(old(self).miller, final(self).miller, visible_rows),
            moved ==> preview_of(final(self).preview) is Empty,
            !moved ==> final(self).preview == old(self).preview,
            same_but_view(*old(self), *final(self)),
    {
        if self.miller.move_down(visible_rows).is_some() {
            self.clear();
            true
        } else {
            false
        }
    }

    /// Moves the cursor up (see `MillerState::move_up`); when it moved, the
    /// preview is dropped and `true` says that it must be computed again.
    pub fn move_up(&mut self) -> (moved: bool)
        ensures
            moved == (old(self).miller.selected_index > 0 && final(self).miller.selected_path() is Some),
            moved_up(old(self).miller, final(self).miller),
            moved ==> preview_of(final(self).preview) is Empty,
            !moved ==> final(self).preview == old(self).preview,
            same_but_view(*old(self), *final(self)),
    {
        if self.miller.move_up().is_some() {
            self.clear();
            true
        } else {
            false
        }
    }

    /// Drops the preview and enters the directory under the cursor (see
    /// `MillerState::enter_dir`) with the given listing of it: the cursor of
    /// the directory left is remembered, the one remembered for the
    /// directory entered is restored.
    pub fn enter_dir(&mut self, entries: Vec<FileItem>, parent_entries: Vec<FileItem>)
        ensures
            preview_of(final(self).preview) is Empty,
            entered_dir(old(self).miller, final(self).miller, entries@, parent_entries@),
            same_but_view(*old(self), *final(self)),
    {
        self.clear();
        self.miller.enter_dir(entries, parent_entries);
    }

    /// Drops the preview and goes to the parent directory (see
    /// `MillerState::go_parent`) with the given listing of it, the cursor on
    /// the directory it came from.
    pub fn go_parent(&mut self, entries: Vec<FileItem>, parent_entries: Vec<FileItem>)
        ensures
            preview_of(final(self).preview) is Empty,
            went_to_parent(old(self).miller, final(self).miller, entries@, parent_entries@),
            same_but_view(*old(self), *final(self)),
    {
        self.clear();
        self.miller.go_parent(entries, parent_entries);
    }

    /// Whether `handle_key` can take the key (see `main_key_ready`).
    pub fn key_ready(&self, key: Key) -> (r: bool)
        ensures
            r == main_key_ready(*self, key),
    {
        if self.pending_g {
            return true;
        }
        match &self.mode {
            AppMode::Omnibar { prefix, .. } => {
                if *prefix == '?' && (key matches Key::Char(_)) {
                    return self.search_id < usize::MAX;
                }
                true
            },
            AppMode::Normal => true,
        }
    }

    /// Reacts to a key press: after `g`, jumps to a known directory; in
    /// normal mode, moves, enters or leaves directories, opens the viewer,
    /// starts typing (rename, filter, deep search, creation after `n`) or
    /// quits; while typing, edits the text, filtering live after `/` and
    /// searching deeply after `?`, `Enter` validating and `Esc` cancelling.
    /// The current entry is a file when `current_is_file`, named
    /// `current_name`.  Returns what the program loop has to do next.
    pub fn handle_key(&mut self, key: Key, current_is_file: bool, current_name: &str) -> (r:
        MainAction)
        requires
            main_key_ready(*old(self), key),
        ensures
            if old(self).pending_g {
                &&& keyed(
                    *old(self),
                    *final(self),
                    mode_of(old(self).mode),
                    PendingFlags { g: false, ..flags_of(*old(self)) },
                )
                &&& match jump_target_of(key) {
                    Some(t) => r == MainAction::Jump(t),
                    None => r is Redraw,
                }
            } else {
                match mode_of(old(self).mode) {
                    ModeModel::Normal => normal_key(
                        *old(self),
                        *final(self),
                        key,
                        current_is_file,
                        current_name@,
                        r,
                    ),
                    ModeModel::Omnibar(p, t) => omnibar_key(
                        *old(self),
                        *final(self),
                        p,
                        t,
                        key,
                        current_is_file,
                        current_name@,
                        r,
                    ),
                }
            },
    {
        if self.pending_g {
            self.pending_g = false;
            return match jump_target(key) {
                Some(t) => MainAction::Jump(t),
                None => MainAction::Redraw,
            };
        }
        let is_normal = match &self.mode {
            AppMode::Normal => true,
            AppMode::Omnibar { .. } => false,
        };
        if is_normal {
            self.normal_key(key, current_is_file, current_name)
        } else {
            self.omnibar_key(key, current_is_file, current_name)
        }
    }

    fn open_bar(&mut self, prefix: char)
        ensures
            keyed(
                *old(self),
                *final(self),
                ModeModel::Omnibar(prefix, Seq::empty()),
                flags_of(*old(self)),
            ),
    {
        self.mode = AppMode::Omnibar { prefix, input_buffer: String::new() };
    }

    fn normal_key(&mut self, key: Key, current_is_file: bool, current_name: &str) -> (r: MainAction)
        requires
            mode_of(old(self).mode) is Normal,
        ensures
            normal_key(*old(self), *final(self), key, current_is_file, current_name@, r),
    {
        let create = self.pending_create;
        match key {
            Key::F(2) => {
                if current_is_file {
                    self.mode = AppMode::Omnibar {
                        prefix: '*',
                        input_buffer: current_name.to_owned(),
                    };
                }
                MainAction::Redraw
            },
            Key::Char('/') => {
                self.open_bar('/');
                MainAction::Redraw
            },
            Key::Char('?') => {
                self.open_bar('?');
                MainAction::Redraw
            },
            Key::Char('d') if create => {
                self.pending_create = false;
                self.pending_create_dir = true;
                self.open_bar('+');
                MainAction::Redraw
            },
            Key::Char('f') if create => {
                self.pending_create = false;
                self.pending_create_file = true;
                self.open_bar('+');
                MainAction::Redraw
            },
            Key::Char('a') if create => {
                self.pending_create = false;
                self.pending_create_archive = true;
                self.open_bar('+');
                MainAction::Redraw
            },
            Key::Char('h') if create => {
                self.pending_create = false;
                self.pending_create_hardlink = true;
                self.open_bar('+');
                MainAction::Redraw
            },
            Key::Char('s') if create => {
                self.pending_create = false;
                self.pending_create_symlink = true;
                self.open_bar('+');
                MainAction::Redraw
            },
            Key::Char('f') | Key::Char('a') | Key::Char('s') | Key::Char('p') => {
                self.open_bar('+');
                MainAction::Redraw
            },
            Key::Enter => {
                if current_is_file {
                    MainAction::OpenViewer
                } else {
                    MainAction::Redraw
                }
            },
            Key::Char('q') => MainAction::Quit,
            Key::Char('j') | Key::Down => MainAction::MoveDown,
            Key::Char('k') | Key::Up => MainAction::MoveUp,
            Key::Char('l') | Key::Right | Key::Char(' ') => MainAction::EnterDir,
            Key::Char('h') | Key::Left | Key::Backspace => MainAction::GoParent,
            Key::Char('n') => {
                self.pending_create = true;
                MainAction::Redraw
            },
            Key::Char('g') => {
                self.pending_g = true;
                MainAction::Redraw
            },
            Key::F(5) => MainAction::Refresh,
            _ => {
                self.pending_create = false;
                self.pending_g = false;
                MainAction::Redraw
            },
        }
    }

    fn clear_creation(&mut self)
        ensures
            flags_of(*final(self)) == without_creation(flags_of(*old(self))),
            same_but_keys(*old(self), *final(self)),
            final(self).mode == old(self).mode,
    {
        self.pending_create_dir = false;
        self.pending_create_file = false;
        self.pending_create_archive = false;
        self.pending_create_hardlink = false;
        self.pending_create_symlink = false;
    }

    fn pending_creation(&self) -> (r: Option<CreateKind>)
        ensures
            r == pending_kind(flags_of(*self)),
    {
        if self.pending_create_dir {
            Some(CreateKind::Dir)
        } else if self.pending_create_file {
            Some(CreateKind::File)
        } else if self.pending_create_archive {
            Some(CreateKind::Archive)
        } else if self.pending_create_hardlink {
            Some(CreateKind::Hardlink)
        } else if self.pending_create_symlink {
            Some(CreateKind::Symlink)
        } else {
            None
        }
    }

    fn omnibar_key(&mut self, key: Key, current_is_file: bool, current_name: &str) -> (r: MainAction)
        requires
            mode_of(old(self).mode) is Omnibar,
            main_key_ready(*old(self), key),
            !old(self).pending_g,
        ensures
            match mode_of(old(self).mode) {
                ModeModel::Omnibar(p, t) => omnibar_key(
                    *old(self),
                    *final(self),
                    p,
                    t,
                    key,
                    current_is_file,
                    current_name@,
                    r,
                ),
                ModeModel::Normal => false,
            },
    {
        let prefix = match &self.mode {
            AppMode::Omnibar { prefix, .. } => *prefix,
            AppMode::Normal => ' ',
        };
        match key {
            Key::Esc => {
                self.mode = AppMode::Normal;
                self.clear_creation();
                if prefix == '/' {
                    proof {
                        reveal_strlit("");
                    }
                    self.miller.filter("");
                    MainAction::UpdatePreview
                } else if prefix == '*' {
                    MainAction::Refresh
                } else {
                    MainAction::ClearScreen
                }
            },
            Key::Enter => {
                let text = match &self.mode {
                    AppMode::Omnibar { input_buffer, .. } => input_buffer.clone(),
                    AppMode::Normal => String::new(),
                };
                self.mode = AppMode::Normal;
                if prefix == '*' && current_is_file {
                    MainAction::Rename { from: current_name.to_owned(), to: text }
                } else if prefix == '+' {
                    match self.pending_creation() {
                        Some(kind) => {
                            self.clear_creation();
                            MainAction::Create { kind, name: text }
                        },
                        None => MainAction::ClearScreen,
                    }
                } else {
                    MainAction::ClearScreen
                }
            },
            Key::Backspace => {
                let mut text = match &self.mode {
                    AppMode::Omnibar { input_buffer, .. } => input_buffer.clone(),
                    AppMode::Normal => String::new(),
                };
                string_pop(&mut text);
                if prefix == '/' {
                    self.miller.filter(text.as_str());
                }
                self.mode = AppMode::Omnibar { prefix, input_buffer: text };
                MainAction::Redraw
            },
            Key::Char(c) => {
                let mut text = match &self.mode {
                    AppMode::Omnibar { input_buffer, .. } => input_buffer.clone(),
                    AppMode::Normal => String::new(),
                };
                string_push(&mut text, c);
                let r = if prefix == '/' {
                    self.miller.filter(text.as_str());
                    MainAction::ClearScreen
                } else if prefix == '?' {
                    self.search_id = self.search_id + 1;
                    self.miller.current_entries.clear();
                    self.miller.filtered_indices.clear();
                    MainAction::DeepSearch {
                        query: text.clone(),
                        dir: self.miller.current_dir.clone(),
                        search_id: self.search_id,
                    }
                } else {
                    MainAction::Redraw
                };
                self.mode = AppMode::Omnibar { prefix, input_buffer: text };
                r
            },
            _ => MainAction::Redraw,
        }
    }

    /// Takes in the worker's batches: the entries of those that answer the
    /// current deep search are appended to the listing, all visible.
    pub fn poll_bus(&mut self, events: Vec<WorkerEvent>)
        ensures
            final(self).miller.current_entries@ == old(self).miller.current_entries@
                + answering_items(events@, old(self).search_id),
            answers(events@, old(self).search_id) ==> final(self).miller.filtered_indices@
                == all_indices(final(self).miller.current_entries@.len()),
            !answers(events@, old(self).search_id) ==> final(self).miller.filtered_indices
                == old(self).miller.filtered_indices,
            same_but_entries(*old(self), *final(self)),
    {
        let ghost evs = events@;
        let ghost start = self.miller.current_entries@;
        let ghost id = self.search_id;
        let mut i: usize = 0;
        let n = events.len();
        let mut events = events;
        let mut any = false;
        proof {
            assert(evs.take(0) =~= Seq::<WorkerEvent>::empty());
        }
        while i < n
            invariant
                n == evs.len(),
                i <= n,
                events@ == evs.subrange(i as int, n as int),
                id == self.search_id,
                self.miller.current_entries@ == start + answering_items(evs.take(i as int), id),
                any == answers(evs.take(i as int), id),
                any ==> self.miller.filtered_indices@ == all_indices(
                    self.miller.current_entries@.len(),
                ),
                !any ==> self.miller.filtered_indices == old(self).miller.filtered_indices,
                same_but_entries(*old(self), *self),
            decreases n - i,
        {
            let ev = events.remove(0);
            proof {
                assert(ev == evs[i as int]);
                assert(evs.take(i + 1).drop_last() =~= evs.take(i as int));
                assert(events@ =~= evs.subrange(i + 1, n as int));
            }
            match ev {
                WorkerEvent::SearchResultBatch { mut items, search_id } => {
                    if search_id == self.search_id {
                        let ghost before = self.miller.current_entries@;
                        self.miller.current_entries.append(&mut items);
                        self.miller.filtered_indices = index_range(self.miller.current_entries.len());
                        any = true;
                        proof {
                            assert(evs.take(i + 1)[i as int] == evs[i as int]);
                            assert(answers(evs.take(i + 1), id));
                        }
                    } else {
                        proof {
                            if answers(evs.take(i + 1), id) {
                                let j = choose|j: int|
                                    0 <= j < i + 1 && (#[trigger] evs.take(i + 1)[j] matches
                                    WorkerEvent::SearchResultBatch { search_id, .. } && search_id
                                        == id);
                                assert(j != i);
                                assert(evs.take(i as int)[j] == evs.take(i + 1)[j]);
                            }
                            if answers(evs.take(i as int), id) {
                                let j = choose|j: int|
                                    0 <= j < i && (#[trigger] evs.take(i as int)[j] matches
                                    WorkerEvent::SearchResultBatch { search_id, .. } && search_id
                                        == id);
                                assert(evs.take(i + 1)[j] == evs.take(i as int)[j]);
                            }
                        }
                    }
                },
            }
            i = i + 1;
        }
        proof {
            assert(evs.take(n as int) =~= evs);
        }
    }

    /// What the preview needs read for the entry under the cursor (see
    /// `selection_target`).
    pub fn preview_target(&self) -> (r: PreviewTarget)
        ensures
            targets(self.miller, r),
    {
        selection_target(&self.miller)
    }

    /// Computes the preview from what was read for the selected entry: a
    /// directory's entries in listing order, an archive's members, the first
    /// 50 lines of a text, or a note for an executable that is not text.
    pub fn update_preview(&mut self, source: PreviewSource)
        ensures
            preview_for(source, preview_of(final(self).preview)),
            final(self).miller == old(self).miller,
            same_but_view(*old(self), *final(self)),
    {
        let ghost src = source;
        self.preview = match source {
            PreviewSource::Nothing => Preview::Empty,
            PreviewSource::DirEntries(es) => Preview::Dir(sort_entries(&es)),
            PreviewSource::ArchiveEntries(names) => {
                let mut items: Vec<FileItem> = Vec::new();
                let mut i: usize = 0;
                while i < names.len()
                    invariant
                        i <= names@.len(),
                        items@.len() == i,
                        forall|j: int| 0 <= j < i ==> member_item(#[trigger] names@[j]@, items@[j]),
                    decreases names@.len() - i,
                {
                    items.push(
                        FileItem {
                            path: names[i].clone(),
                            name: names[i].clone(),
                            is_dir: false,
                            is_file: true,
                            is_executable: false,
                            is_symlink: false,
                        },
                    );
                    i = i + 1;
                }
                Preview::Dir(items)
            },
            PreviewSource::Text(t) => {
                let all = split_lines(t.as_str());
                let mut lines: Vec<String> = Vec::new();
                let mut i: usize = 0;
                while i < all.len() && i < 50
                    invariant
                        i <= all@.len(),
                        i <= 50,
                        lines@.len() == i,
                        forall|j: int| 0 <= j < i ==> lines@[j]@ == all@[j]@,
                    decreases all@.len() - i,
                {
                    lines.push(all[i].clone());
                    i = i + 1;
                }
                proof {
                    let ls = all@.map_values(|l: String| l@);
                    assert(lines@.map_values(|l: String| l@) =~= first_lines(t@, 50));
                }
                Preview::File(lines)
            },
            PreviewSource::Unreadable { is_executable } => {
                if is_executable {
                    let mut lines: Vec<String> = Vec::new();
                    lines.push(String::from_str("Bin file..."));
                    proof {
                        assert(lines@.map_values(|l: String| l@) =~= seq!["Bin file..."@]);
                    }
                    Preview::File(lines)
                } else {
                    Preview::Empty
                }
            },
        };
    }
}


// ---------------------------------------------------------------------------
// Properties across operations
// ---------------------------------------------------------------------------

/// Batches that answer an earlier (or any other) search add nothing.
pub proof fn lemma_stale_batches_ignored(events: Seq<WorkerEvent>, id: usize)
    requires
        !answers(events, id),
    ensures
        answering_items(events, id) == Seq::<FileItem>::empty(),
    decreases events.len(),
{
    if events.len() > 0 {
        assert(!answers(events.drop_last(), id)) by {
            if answers(events.drop_last(), id) {
                let i = choose|i: int|
                    0 <= i < events.drop_last().len() && (#[trigger] events.drop_last()[i] matches WorkerEvent::SearchResultBatch {
                        search_id,
                        ..
                    } && search_id == id);
                assert(events[i] == events.drop_last()[i]);
            }
        }
        lemma_stale_batches_ignored(events.drop_last(), id);
        assert(!(events[events.len() - 1] matches WorkerEvent::SearchResultBatch { search_id, .. } && search_id == id));
        assert(answering_items(events, id) =~= Seq::<FileItem>::empty());
    }
}

/// `Esc` in the bottom bar always goes back to normal mode and drops any
/// pending creation; leaving the filter shows every entry again, cursor at
/// the top.
pub proof fn lemma_escape_leaves_bar(
    pre: Workspace,
    post: Workspace,
    prefix: char,
    text: Seq<char>,
    is_file: bool,
    name: Seq<char>,
    r: MainAction,
)
    requires
        omnibar_key(pre, post, prefix, text, Key::Esc, is_file, name, r),
    ensures
        mode_of(post.mode) == ModeModel::Normal,
        pending_kind(flags_of(post)) is None,
        prefix == '/' ==> post.miller.filtered_indices@ == all_indices(
            post.miller.current_entries@.len(),
        ) && post.miller.selected_index == 0 && post.miller.current_entries
            == pre.miller.current_entries,
{
}

/// Typing a character and erasing it gives the typed text back.
pub proof fn lemma_type_then_erase(
    pre: Workspace,
    mid: Workspace,
    post: Workspace,
    prefix: char,
    text: Seq<char>,
    c: char,
    is_file: bool,
    name: Seq<char>,
    r1: MainAction,
    r2: MainAction,
)
    requires
        omnibar_key(pre, mid, prefix, text, Key::Char(c), is_file, name, r1),
        omnibar_key(mid, post, prefix, text.push(c), Key::Backspace, is_file, name, r2),
    ensures
        mode_of(post.mode) == ModeModel::Omnibar(prefix, text),
{
    assert(text.push(c).drop_last() =~= text);
}

/// A navigation state made for a listing selects the same entry as any
/// other state made for it, so the target computed on one is the target of
/// the other (what a session's first preview is read from).
pub proof fn lemma_fresh_states_select_alike(
    a: MillerState,
    b: MillerState,
    dir: Seq<char>,
    entries: Seq<FileItem>,
    parent_entries: Seq<FileItem>,
    r: PreviewTarget,
)
    requires
        a.shows_listing(dir, entries, parent_entries),
        b.shows_listing(dir, entries, parent_entries),
        a.selected_index == 0,
        b.selected_index == 0,
        targets(a, r),
    ensures
        a.selected_entry() == b.selected_entry(),
        targets(b, r),
{
    crate::tree::lemma_listing_unique(entries, a.current_entries@, b.current_entries@);
}

/// Distinct keys after `g` jump to distinct directories: the key-to-target
/// map is one-to-one.
pub proof fn lemma_jump_keys_one_to_one(k1: Key, k2: Key, t: JumpTarget)
    requires
        jump_target_of(k1) == Some(t),
        jump_target_of(k2) == Some(t),
    ensures
        k1 == k2,
{
}

/// Every known directory can be jumped to: some key after `g` leads there.
pub proof fn lemma_every_jump_target_reached(t: JumpTarget)
    ensures
        exists|k: Key| jump_target_of(k) == Some(t),
{
    let k = match t {
        JumpTarget::Home => Key::Char('h'),
        JumpTarget::Downloads => Key::Char('x'),
        JumpTarget::Documents => Key::Char('d'),
        JumpTarget::Audio => Key::Char('a'),
        JumpTarget::Executables => Key::Char('b'),
        JumpTarget::Config => Key::Char('c'),
        JumpTarget::Pictures => Key::Char('p'),
        JumpTarget::Videos => Key::Char('v'),
        JumpTarget::Fonts => Key::Char('f'),
        JumpTarget::Templates => Key::Char('t'),
        JumpTarget::Desktop => Key::Char('j'),
        JumpTarget::Root => Key::Char('r'),
    };
    assert(jump_target_of(k) == Some(t));
}

/// The quick jumps: `g` then `h` home, `x` downloads, `d` documents, `p`
/// pictures, `v` videos, `a` audio, `c` configuration, `r` the root, and
/// further `b` executables, `f` fonts, `t` templates, `j` the desktop;
/// `g` then a key that is not a letter of this table jumps nowhere.
pub proof fn lemma_jump_table(other: char)
    requires
        !(other == 'h' || other == 'x' || other == 'd' || other == 'p' || other == 'v' || other
            == 'a' || other == 'c' || other == 'r' || other == 'b' || other == 'f' || other == 't'
            || other == 'j'),
    ensures
        jump_target_of(Key::Char('h')) == Some(JumpTarget::Home),
        jump_target_of(Key::Char('x')) == Some(JumpTarget::Downloads),
        jump_target_of(Key::Char('d')) == Some(JumpTarget::Documents),
        jump_target_of(Key::Char('p')) == Some(JumpTarget::Pictures),
        jump_target_of(Key::Char('v')) == Some(JumpTarget::Videos),
        jump_target_of(Key::Char('a')) == Some(JumpTarget::Audio),
        jump_target_of(Key::Char('c')) == Some(JumpTarget::Config),
        jump_target_of(Key::Char('r')) == Some(JumpTarget::Root),
        jump_target_of(Key::Char('b')) == Some(JumpTarget::Executables),
        jump_target_of(Key::Char('f')) == Some(JumpTarget::Fonts),
        jump_target_of(Key::Char('t')) == Some(JumpTarget::Templates),
        jump_target_of(Key::Char('j')) == Some(JumpTarget::Desktop),
        jump_target_of(Key::Char(other)) is None,
{
}

} // verus!
