//! Tabbed split views over opened buffers, grouped in workspaces.

use vstd::prelude::*;
use vstd::view::View as _;

pub mod buffer;
pub mod pattern;
pub mod laws;

use buffer::Buffer;
use crate::textmap::TextMap;
use crate::keys::Key;
use crate::crypto::{content_name, hash};
use crate::paths::{extension_of, file_name_of, path_file_name};
use crate::text::{chars_of, lines_of, split_lines, string_from_chars, string_pop, string_push};
use pattern::{compile_pattern, pattern_is_match, regex_compiles, regex_matches, SearchPattern};
use vstd::string::StringSliceAdditionalSpecFns;

verus! {

/// A direction in which a view is split in two.
#[derive(Clone, Copy, Debug, Default, PartialEq, Eq, Structural)]
pub enum SplitDirection {
    /// Side by side, cut from left to right.
    #[default]
    Vertical,
    /// One above the other.
    Horizontal,
}

/// A rectangle of terminal cells.
#[derive(Debug, Default, Clone, Copy, PartialEq, Eq, Structural)]
pub struct Rect {
    pub x: u16,
    pub y: u16,
    pub width: u16,
    pub height: u16,
}

/// The part of a length `len` given to the first half of a split with share
/// `ratio` (hundredths, kept between 10 and 90), rounded to the nearest
/// cell, halves up.
pub open spec fn first_part(len: u16, ratio: u32) -> int {
    (len * clamp_ratio(ratio as int) + 50) / 100
}

/// The two halves of `r` split in `direction` with share `ratio`.
pub open spec fn split_rect(r: Rect, direction: SplitDirection, ratio: u32) -> (Rect, Rect) {
    match direction {
        SplitDirection::Vertical => {
            let w = first_part(r.width, ratio);
            (
                Rect { width: w as u16, ..r },
                Rect { x: (r.x + w) as u16, width: (r.width - w) as u16, ..r },
            )
        },
        SplitDirection::Horizontal => {
            let h = first_part(r.height, ratio);
            (
                Rect { height: h as u16, ..r },
                Rect { y: (r.y + h) as u16, height: (r.height - h) as u16, ..r },
            )
        },
    }
}

proof fn lemma_first_part_bounds(len: u16, ratio: u32)
    ensures
        0 <= first_part(len, ratio) <= len,
{
    let c = clamp_ratio(ratio as int) as int;
    assert(10 <= c <= 90);
    assert(0 <= len * c <= len * 90) by (nonlinear_arith)
        requires
            10 <= c <= 90,
            len >= 0,
    ;
    assert((len * c + 50) / 100 <= len as int) by (nonlinear_arith)
        requires
            0 <= len * c <= len * 90,
            len >= 0,
    ;
}

impl Rect {
    /// Splits the rectangle in two in `direction`, the first part (left or
    /// top) getting `ratio` hundredths of it (kept between 10 and 90),
    /// rounded to the nearest cell.
    pub fn split(&self, direction: SplitDirection, ratio: u32) -> (r: (Rect, Rect))
        requires
            direction == SplitDirection::Vertical ==> self.x + first_part(self.width, ratio)
                <= u16::MAX,
            direction == SplitDirection::Horizontal ==> self.y + first_part(self.height, ratio)
                <= u16::MAX,
        ensures
            r == split_rect(*self, direction, ratio),
    {
        proof {
            lemma_first_part_bounds(self.width, ratio);
            lemma_first_part_bounds(self.height, ratio);
        }
        let clamped: u32 = if ratio < 10 {
            10
        } else if ratio > 90 {
            90
        } else {
            ratio
        };
        match direction {
            SplitDirection::Vertical => {
                let left_width = ((self.width as u32 * clamped + 50) / 100) as u16;
                let left = Rect { width: left_width, ..*self };
                let right = Rect {
                    x: self.x + left_width,
                    width: self.width - left_width,
                    ..*self
                };
                (left, right)
            },
            SplitDirection::Horizontal => {
                let top_height = ((self.height as u32 * clamped + 50) / 100) as u16;
                let top = Rect { height: top_height, ..*self };
                let bottom = Rect {
                    y: self.y + top_height,
                    height: self.height - top_height,
                    ..*self
                };
                (top, bottom)
            },
        }
    }
}

/// What a view shows: its tabs (buffer names), the visible tab, the first
/// visible line and whether it has the focus.
pub struct ViewState {
    pub tabs: Seq<Seq<char>>,
    pub active_tab: usize,
    pub scroll_offset: usize,
    pub is_active: bool,
}

/// One view of the layout.
#[derive(Clone, Debug)]
pub struct View {
    pub tabs: Vec<String>,
    pub active_tab: usize,
    pub scroll_offset: usize,
    pub is_active: bool,
}

impl vstd::view::View for View {
    type V = ViewState;

    open spec fn view(&self) -> ViewState {
        ViewState {
            tabs: self.tabs@.map_values(|t: String| t@),
            active_tab: self.active_tab,
            scroll_offset: self.scroll_offset,
            is_active: self.is_active,
        }
    }
}


impl Default for View {
    fn default() -> (r: Self)
        ensures
            r.tabs@.len() == 0,
            r.active_tab == 0,
            r.scroll_offset == 0,
            r.is_active,
    {
        View { tabs: Vec::new(), active_tab: 0, scroll_offset: 0, is_active: true }
    }
}

/// The view after `next_tab`.
pub open spec fn view_next_tab(v: ViewState) -> ViewState {
    if v.tabs.len() > 0 {
        ViewState { active_tab: ((v.active_tab + 1) % (v.tabs.len() as int)) as usize, ..v }
    } else {
        v
    }
}

/// The view after `previous_tab`.
pub open spec fn view_previous_tab(v: ViewState) -> ViewState {
    if v.tabs.len() > 0 {
        ViewState {
            active_tab: if v.active_tab == 0 {
                (v.tabs.len() - 1) as usize
            } else {
                (v.active_tab - 1) as usize
            },
            ..v
        }
    } else {
        v
    }
}

/// The name of the visible tab.
pub open spec fn active_tab_name(v: ViewState) -> Option<Seq<char>> {
    if v.active_tab < v.tabs.len() {
        Some(v.tabs[v.active_tab as int])
    } else {
        None
    }
}

impl View {
    /// Goes to the next tab, from the last back to the first.
    pub fn next_tab(&mut self)
        ensures
            final(self)@ == view_next_tab(old(self)@),
            final(self).tabs == old(self).tabs,
    {
        let n = self.tabs.len();
        if n > 0 {
            self.active_tab = (self.active_tab % n + 1) % n;
            proof {
                vstd::arithmetic::div_mod::lemma_add_mod_noop(
                    old(self).active_tab as int,
                    1,
                    n as int,
                );
                if n > 1 {
                    vstd::arithmetic::div_mod::lemma_small_mod(1, n as nat);
                }
            }
        }
    }

    /// Goes to the previous tab, from the first back to the last.
    pub fn previous_tab(&mut self)
        ensures
            final(self)@ == view_previous_tab(old(self)@),
            final(self).tabs == old(self).tabs,
    {
        if self.tabs.len() > 0 {
            if self.active_tab == 0 {
                self.active_tab = self.tabs.len() - 1;
            } else {
                self.active_tab = self.active_tab - 1;
            }
        }
    }

    /// The name of the visible tab.
    pub fn get_active_tab_hash(&self) -> (r: Option<&String>)
        ensures
            match r {
                Some(t) => active_tab_name(self@) == Some(t@) && self.active_tab < self.tabs@.len()
                    && *t == self.tabs@[self.active_tab as int],
                None => active_tab_name(self@) is None,
            },
    {
        if self.active_tab < self.tabs.len() {
            Some(&self.tabs[self.active_tab])
        } else {
            None
        }
    }

    /// A copy of the view.
    pub fn duplicate(&self) -> (r: Self)
        ensures
            r@ == self@,
    {
        let mut tabs: Vec<String> = Vec::new();
        let mut i: usize = 0;
        while i < self.tabs.len()
            invariant
                i <= self.tabs@.len(),
                tabs@.len() == i,
                forall|j: int| 0 <= j < i ==> tabs@[j]@ == self.tabs@[j]@,
            decreases self.tabs@.len() - i,
        {
            tabs.push(self.tabs[i].clone());
            i = i + 1;
        }
        let r = View {
            tabs,
            active_tab: self.active_tab,
            scroll_offset: self.scroll_offset,
            is_active: self.is_active,
        };
        assert(r@.tabs =~= self@.tabs);
        r
    }
}


// ---------------------------------------------------------------------------
// Layout trees
// ---------------------------------------------------------------------------

/// Shape of a layout: views at the leaves, splits with their share (in
/// hundredths of the area given to the left or top part) and direction.
pub enum Layout {
    Leaf(ViewState),
    Split { ratio: u32, direction: SplitDirection, left: Box<Layout>, right: Box<Layout> },
}

/// A layout tree of views.
#[derive(Debug)]
pub enum SplitNode {
    Leaf(View),
    Split {
        /// Share of the area given to `left`, in hundredths.
        ratio: u32,
        direction: SplitDirection,
        left: Box<SplitNode>,
        right: Box<SplitNode>,
    },
}

pub open spec fn layout_of(n: SplitNode) -> Layout
    decreases n,
{
    match n {
        SplitNode::Leaf(v) => Layout::Leaf(v@),
        SplitNode::Split { ratio, direction, left, right } => Layout::Split {
            ratio,
            direction,
            left: Box::new(layout_of(*left)),
            right: Box::new(layout_of(*right)),
        },
    }
}

impl vstd::view::View for SplitNode {
    type V = Layout;

    open spec fn view(&self) -> Layout {
        layout_of(*self)
    }
}

/// The view that a new layout holds: no tabs, focused.
pub open spec fn fresh_view() -> ViewState {
    ViewState { tabs: Seq::empty(), active_tab: 0, scroll_offset: 0, is_active: true }
}

/// The views of a layout, left (or top) first.
pub open spec fn leaves(n: Layout) -> Seq<ViewState>
    decreases n,
{
    match n {
        Layout::Leaf(v) => seq![v],
        Layout::Split { left, right, .. } => leaves(*left) + leaves(*right),
    }
}

/// The first focused view of a layout, left (or top) first.
pub open spec fn first_active(n: Layout) -> Option<ViewState>
    decreases n,
{
    match n {
        Layout::Leaf(v) => if v.is_active {
            Some(v)
        } else {
            None
        },
        Layout::Split { left, right, .. } => match first_active(*left) {
            Some(v) => Some(v),
            None => first_active(*right),
        },
    }
}

/// The layout with its first focused view replaced by `w`.
pub open spec fn replace_first_active(n: Layout, w: ViewState) -> Layout
    decreases n,
{
    match n {
        Layout::Leaf(v) => if v.is_active {
            Layout::Leaf(w)
        } else {
            n
        },
        Layout::Split { ratio, direction, left, right } => if first_active(*left) is Some {
            Layout::Split {
                ratio,
                direction,
                left: Box::new(replace_first_active(*left, w)),
                right,
            }
        } else {
            Layout::Split {
                ratio,
                direction,
                left,
                right: Box::new(replace_first_active(*right, w)),
            }
        },
    }
}

/// Every focused view split in two halves in `direction`: the focused view
/// first, an unfocused copy of it second.
pub open spec fn split_active(n: Layout, direction: SplitDirection) -> Layout
    decreases n,
{
    match n {
        Layout::Leaf(v) => if v.is_active {
            Layout::Split {
                ratio: 50,
                direction,
                left: Box::new(Layout::Leaf(v)),
                right: Box::new(Layout::Leaf(ViewState { is_active: false, ..v })),
            }
        } else {
            n
        },
        Layout::Split { ratio, direction: d, left, right } => Layout::Split {
            ratio,
            direction: d,
            left: Box::new(split_active(*left, direction)),
            right: Box::new(split_active(*right, direction)),
        },
    }
}

/// The layout without its focused views, a split whose part is gone giving
/// way to its other part; `None` when no view is left.
pub open spec fn close_active(n: Layout) -> Option<Layout>
    decreases n,
{
    match n {
        Layout::Leaf(v) => if v.is_active {
            None
        } else {
            Some(n)
        },
        Layout::Split { ratio, direction, left, right } => match (
            close_active(*left),
            close_active(*right),
        ) {
            (Some(l), Some(r)) => Some(
                Layout::Split { ratio, direction, left: Box::new(l), right: Box::new(r) },
            ),
            (Some(l), None) => Some(l),
            (None, Some(r)) => Some(r),
            (None, None) => None,
        },
    }
}

/// The layout with its first view (left or top first) focused.
pub open spec fn focus_first(n: Layout) -> Layout
    decreases n,
{
    match n {
        Layout::Leaf(v) => Layout::Leaf(ViewState { is_active: true, ..v }),
        Layout::Split { ratio, direction, left, right } => Layout::Split {
            ratio,
            direction,
            left: Box::new(focus_first(*left)),
            right,
        },
    }
}

/// A share kept between a tenth and nine tenths.
pub open spec fn clamp_ratio(r: int) -> u32 {
    if r < 10 {
        10
    } else if r > 90 {
        90
    } else {
        r as u32
    }
}

pub open spec fn is_active_leaf(n: Layout) -> bool {
    n matches Layout::Leaf(v) && v.is_active
}

/// The layout with `delta` hundredths added to the share of every split
/// that has a focused view as a direct part, kept between 10 and 90.
pub open spec fn adjust_ratio(n: Layout, delta: int) -> Layout
    decreases n,
{
    match n {
        Layout::Leaf(_) => n,
        Layout::Split { ratio, direction, left, right } => Layout::Split {
            ratio: if is_active_leaf(*left) || is_active_leaf(*right) {
                clamp_ratio(ratio + delta)
            } else {
                ratio
            },
            direction,
            left: Box::new(adjust_ratio(*left, delta)),
            right: Box::new(adjust_ratio(*right, delta)),
        },
    }
}

/// The layout where exactly the view at position `target` (counting the
/// views from `start`, left or top first) is focused.
pub open spec fn focus_at(n: Layout, start: int, target: int) -> Layout
    decreases n,
{
    match n {
        Layout::Leaf(v) => Layout::Leaf(ViewState { is_active: start == target, ..v }),
        Layout::Split { ratio, direction, left, right } => Layout::Split {
            ratio,
            direction,
            left: Box::new(focus_at(*left, start, target)),
            right: Box::new(focus_at(*right, start + leaves(*left).len(), target)),
        },
    }
}

/// Position of the last focused view among `s`.
pub open spec fn last_active_index(s: Seq<ViewState>) -> Option<int>
    decreases s.len(),
{
    if s.len() == 0 {
        None
    } else if s.last().is_active {
        Some(s.len() - 1)
    } else {
        last_active_index(s.drop_last())
    }
}

/// The views that follow the focus after `cycle_focus`: with more than one
/// view, the one after the last focused view (the first when none is).
pub open spec fn cycle_focus_layout(n: Layout) -> Layout {
    let count = leaves(n).len();
    if count > 1 {
        let next = match last_active_index(leaves(n)) {
            Some(i) => (i + 1) % (count as int),
            None => 0,
        };
        focus_at(n, 0, next)
    } else {
        n
    }
}

/// The first view of a layout (left or top first).
pub open spec fn first_view(n: Layout) -> ViewState
    decreases n,
{
    match n {
        Layout::Leaf(v) => v,
        Layout::Split { left, .. } => first_view(*left),
    }
}

impl SplitNode {
    /// A layout of one fresh view.
    pub fn fresh() -> (r: Self)
        ensures
            r@ == Layout::Leaf(fresh_view()),
    {
        let v = View::default();
        assert(v@.tabs =~= Seq::<Seq<char>>::empty());
        SplitNode::Leaf(v)
    }
}

impl Default for SplitNode {
    fn default() -> (r: Self)
        ensures
            r@ == Layout::Leaf(fresh_view()),
    {
        SplitNode::fresh()
    }
}


// ---------------------------------------------------------------------------
// Workspaces
// ---------------------------------------------------------------------------

/// A layout of views.
#[derive(Debug)]
pub struct Workspace {
    pub root: SplitNode,
}

/// The buffers, workspaces and modes of the viewer.
#[derive(Debug)]
pub struct App {
    /// Opened buffers, by content-derived name.
    pub buffers: TextMap<Buffer>,
    /// A search is being typed.
    pub is_searching: bool,
    /// The search being typed or last typed.
    pub search_query: String,
    /// The workspaces (switched between with the digit keys).
    pub workspaces: Vec<Workspace>,
    pub show_filenames: bool,
    /// Index of the displayed workspace.
    pub active_workspace: usize,
    pub window_mode: bool,
}

impl App {
    /// The focused view of a layout: the first focused view, left (or top)
    /// first.
    pub fn find_active_view_mut(node: &mut SplitNode) -> (r: Option<&mut View>)
        ensures
            match r {
                Some(v) => first_active(old(node)@) == Some(v@) && final(node)@
                    == replace_first_active(old(node)@, final(v)@),
                None => first_active(old(node)@) is None && *final(node) == *old(node),
            },
        decreases *old(node),
    {
        match node {
            SplitNode::Leaf(view) => {
                if view.is_active {
                    Some(view)
                } else {
                    None
                }
            },
            SplitNode::Split { left, right, .. } => {
                if let Some(v) = Self::find_active_view_mut(left) {
                    return Some(v);
                }
                Self::find_active_view_mut(right)
            },
        }
    }

    /// Splits every focused view in two halves in `direction`: the focused
    /// view on the left (or top), an unfocused copy of it on the other side.
    pub fn recursive_split(node: &mut SplitNode, direction: SplitDirection)
        ensures
            final(node)@ == split_active(old(node)@, direction),
        decreases *old(node),
    {
        match node {
            SplitNode::Leaf(view) => {
                if !view.is_active {
                    return;
                }
                let old_view = view.duplicate();
                let mut new_view = view.duplicate();
                new_view.is_active = false;
                *node = SplitNode::Split {
                    direction,
                    left: Box::new(SplitNode::Leaf(old_view)),
                    right: Box::new(SplitNode::Leaf(new_view)),
                    ratio: 50,
                };
                proof {
                    reveal_with_fuel(layout_of, 2);
                }
            },
            SplitNode::Split { left, right, .. } => {
                Self::recursive_split(left, direction);
                Self::recursive_split(right, direction);
            },
        }
    }

    /// The layout without its focused views (see `close_active`).
    pub fn recursive_close(node: SplitNode) -> (r: Option<SplitNode>)
        ensures
            match r {
                Some(n) => close_active(node@) == Some(n@),
                None => close_active(node@) is None,
            },
        decreases node,
    {
        match node {
            SplitNode::Leaf(view) => {
                if view.is_active {
                    None
                } else {
                    Some(SplitNode::Leaf(view))
                }
            },
            SplitNode::Split { direction, left, right, ratio } => {
                let new_left = Self::recursive_close(*left);
                let new_right = Self::recursive_close(*right);
                match (new_left, new_right) {
                    (Some(l), Some(r)) => Some(
                        SplitNode::Split { direction, left: Box::new(l), right: Box::new(r), ratio },
                    ),
                    (Some(l), None) => Some(l),
                    (None, Some(r)) => Some(r),
                    (None, None) => None,
                }
            },
        }
    }

    /// Focuses the first view (left or top first); always succeeds.
    pub fn force_focus_first(node: &mut SplitNode) -> (r: bool)
        ensures
            r,
            final(node)@ == focus_first(old(node)@),
        decreases *old(node),
    {
        match node {
            SplitNode::Leaf(view) => {
                view.is_active = true;
                true
            },
            SplitNode::Split { left, right, .. } => {
                if Self::force_focus_first(left) {
                    return true;
                }
                Self::force_focus_first(right)
            },
        }
    }

    /// Adds `delta` hundredths to the share of every split that has a focused
    /// view as a direct part, keeping it between 10 and 90; returns whether
    /// the node itself is a focused view.
    pub fn recursive_adjust_ratio(node: &mut SplitNode, delta: i32) -> (r: bool)
        ensures
            final(node)@ == adjust_ratio(old(node)@, delta as int),
            r == is_active_leaf(old(node)@),
        decreases *old(node),
    {
        match node {
            SplitNode::Leaf(view) => view.is_active,
            SplitNode::Split { left, right, ratio, .. } => {
                let found_in_left = Self::recursive_adjust_ratio(left, delta);
                let found_in_right = Self::recursive_adjust_ratio(right, delta);
                if found_in_left || found_in_right {
                    let sum: i64 = *ratio as i64 + delta as i64;
                    *ratio = if sum < 10 {
                        10
                    } else if sum > 90 {
                        90
                    } else {
                        sum as u32
                    };
                    return false;
                }
                false
            },
        }
    }

    /// Counts the views of a layout into `count` and records in `active` the
    /// position (counting on from `count`) of the last focused one.
    fn find_active_idx(node: &SplitNode, count: &mut usize, active: &mut Option<usize>)
        requires
            *old(count) + leaves(node@).len() <= usize::MAX,
        ensures
            *final(count) == *old(count) + leaves(node@).len(),
            *final(active) == (match last_active_index(leaves(node@)) {
                Some(i) => Some((*old(count) + i) as usize),
                None => *old(active),
            }),
        decreases *node,
    {
        match node {
            SplitNode::Leaf(v) => {
                proof {
                    assert(seq![v@].drop_last() =~= Seq::<ViewState>::empty());
                    reveal_with_fuel(last_active_index, 2);
                }
                if v.is_active {
                    *active = Some(*count);
                }
                *count = *count + 1;
            },
            SplitNode::Split { left, right, .. } => {
                proof {
                    lemma_last_active_concat(leaves(left@), leaves(right@));
                }
                Self::find_active_idx(left, count, active);
                Self::find_active_idx(right, count, active);
            },
        }
    }

    /// Focuses exactly the view at position `target`, counting the views from
    /// `current`.
    fn apply_focus_idx(node: &mut SplitNode, current: &mut usize, target: usize)
        requires
            *old(current) + leaves(old(node)@).len() <= usize::MAX,
        ensures
            *final(current) == *old(current) + leaves(old(node)@).len(),
            final(node)@ == focus_at(old(node)@, *old(current) as int, target as int),
        decreases *old(node),
    {
        match node {
            SplitNode::Leaf(v) => {
                v.is_active = *current == target;
                *current = *current + 1;
            },
            SplitNode::Split { left, right, .. } => {
                Self::apply_focus_idx(left, current, target);
                Self::apply_focus_idx(right, current, target);
            },
        }
    }

    /// The first view of a layout (left or top first).
    fn find_first_view(node: &SplitNode) -> (r: &View)
        ensures
            r@ == first_view(node@),
        decreases *node,
    {
        match node {
            SplitNode::Leaf(view) => view,
            SplitNode::Split { left, .. } => Self::find_first_view(left),
        }
    }
}

pub proof fn lemma_last_active_bounds(s: Seq<ViewState>)
    ensures
        last_active_index(s) matches Some(j) ==> 0 <= j < s.len() && s[j].is_active,
    decreases s.len(),
{
    if s.len() > 0 && !s.last().is_active {
        lemma_last_active_bounds(s.drop_last());
    }
}

pub proof fn lemma_last_active_concat(a: Seq<ViewState>, b: Seq<ViewState>)
    ensures
        last_active_index(a + b) == (match last_active_index(b) {
            Some(i) => Some(a.len() + i),
            None => last_active_index(a),
        }),
    decreases b.len(),
{
    if b.len() > 0 {
        assert((a + b).drop_last() =~= a + b.drop_last());
        lemma_last_active_concat(a, b.drop_last());
    } else {
        assert(a + b =~= a);
    }
}


// ---------------------------------------------------------------------------
// The viewer state and its operations
// ---------------------------------------------------------------------------

/// What the viewer state is, apart from its buffers.
pub struct AppModel {
    pub buffers: Map<Seq<char>, Buffer>,
    pub workspaces: Seq<Layout>,
    pub active_workspace: usize,
    pub show_filenames: bool,
    pub window_mode: bool,
    pub is_searching: bool,
    pub search_query: Seq<char>,
}

pub open spec fn roots_of(ws: Seq<Workspace>) -> Seq<Layout> {
    ws.map_values(|w: Workspace| w.root@)
}

impl vstd::view::View for App {
    type V = AppModel;

    open spec fn view(&self) -> AppModel {
        AppModel {
            buffers: self.buffers@,
            workspaces: roots_of(self.workspaces@),
            active_workspace: self.active_workspace,
            show_filenames: self.show_filenames,
            window_mode: self.window_mode,
            is_searching: self.is_searching,
            search_query: self.search_query@,
        }
    }
}

/// The displayed workspace exists.
pub open spec fn has_active_ws(m: AppModel) -> bool {
    m.active_workspace < m.workspaces.len()
}

pub open spec fn active_layout(m: AppModel) -> Layout {
    m.workspaces[m.active_workspace as int]
}

/// The state with the displayed workspace's layout replaced.
pub open spec fn with_active_layout(m: AppModel, root: Layout) -> AppModel {
    AppModel { workspaces: m.workspaces.update(m.active_workspace as int, root), ..m }
}

/// The state with the focused view of the displayed workspace changed by
/// `f` (unchanged when there is no such view).
pub open spec fn map_active_view(m: AppModel, f: spec_fn(ViewState) -> ViewState) -> AppModel {
    if has_active_ws(m) && first_active(active_layout(m)) is Some {
        with_active_layout(
            m,
            replace_first_active(active_layout(m), f(first_active(active_layout(m))->0)),
        )
    } else {
        m
    }
}

/// The state with the displayed workspace's layout changed by `f`.
pub open spec fn map_active_layout(m: AppModel, f: spec_fn(Layout) -> Layout) -> AppModel {
    if has_active_ws(m) {
        with_active_layout(m, f(active_layout(m)))
    } else {
        m
    }
}

pub open spec fn app_next_workspace(m: AppModel) -> AppModel {
    if m.workspaces.len() > 0 {
        AppModel {
            active_workspace: ((m.active_workspace + 1) % (m.workspaces.len() as int)) as usize,
            ..m
        }
    } else {
        m
    }
}

pub open spec fn app_previous_workspace(m: AppModel) -> AppModel {
    if m.workspaces.len() > 0 {
        AppModel {
            active_workspace: if m.active_workspace == 0 {
                (m.workspaces.len() - 1) as usize
            } else {
                (m.active_workspace - 1) as usize
            },
            ..m
        }
    } else {
        m
    }
}

pub open spec fn app_go_to_workspace(m: AppModel, index: usize) -> AppModel {
    if index < m.workspaces.len() {
        AppModel { active_workspace: index, ..m }
    } else {
        m
    }
}

pub open spec fn app_next_tab(m: AppModel) -> AppModel {
    map_active_view(m, |v: ViewState| view_next_tab(v))
}

pub open spec fn app_previous_tab(m: AppModel) -> AppModel {
    map_active_view(m, |v: ViewState| view_previous_tab(v))
}

pub open spec fn app_scroll_up(m: AppModel) -> AppModel {
    map_active_view(
        m,
        |v: ViewState|
            ViewState {
                scroll_offset: if v.scroll_offset > 0 {
                    (v.scroll_offset - 1) as usize
                } else {
                    0
                },
                ..v
            },
    )
}

pub open spec fn app_split(m: AppModel, direction: SplitDirection) -> AppModel {
    map_active_layout(m, |n: Layout| split_active(n, direction))
}

pub open spec fn app_adjust_ratio(m: AppModel, delta: int) -> AppModel {
    map_active_layout(m, |n: Layout| adjust_ratio(n, delta))
}

pub open spec fn app_cycle_focus(m: AppModel) -> AppModel {
    map_active_layout(m, |n: Layout| cycle_focus_layout(n))
}

/// The layout left when the focused views are closed: the remaining views
/// with the first one focused, or one fresh view when none remains.
pub open spec fn closed_layout(n: Layout) -> Layout {
    match close_active(n) {
        Some(r) => focus_first(r),
        None => Layout::Leaf(fresh_view()),
    }
}

pub open spec fn app_close_view(m: AppModel) -> AppModel {
    map_active_layout(m, |n: Layout| closed_layout(n))
}

/// Counting the views of the displayed workspace fits in a `usize`.
pub open spec fn views_countable(m: AppModel) -> bool {
    has_active_ws(m) ==> leaves(active_layout(m)).len() < usize::MAX
}

/// The buffer shown by the first view of the displayed workspace.
pub open spec fn first_view_buffer(m: AppModel) -> Option<Buffer> {
    if has_active_ws(m) {
        match active_tab_name(first_view(active_layout(m))) {
            Some(h) => if m.buffers.contains_key(h) {
                Some(m.buffers[h])
            } else {
                None
            },
            None => None,
        }
    } else {
        None
    }
}

/// Number of lines of the buffer shown by the first view (0 without one).
pub open spec fn first_view_line_count(m: AppModel) -> int {
    match first_view_buffer(m) {
        Some(b) => b.lines@.len() as int,
        None => 0,
    }
}

pub open spec fn app_scroll_down(m: AppModel) -> AppModel {
    map_active_view(
        m,
        |v: ViewState|
            if v.scroll_offset + 1 < first_view_line_count(m) {
                ViewState { scroll_offset: (v.scroll_offset + 1) as usize, ..v }
            } else {
                v
            },
    )
}

/// The lines of a buffer.
pub open spec fn buffer_lines(b: Buffer) -> Seq<Seq<char>> {
    b.lines@.map_values(|l: String| l@)
}

/// The focused view of the displayed workspace and the lines of the buffer
/// it shows, when there are such.
pub open spec fn search_context(m: AppModel) -> Option<(ViewState, Seq<Seq<char>>)> {
    if has_active_ws(m) && first_active(active_layout(m)) is Some {
        let v = first_active(active_layout(m))->0;
        match active_tab_name(v) {
            Some(h) => if m.buffers.contains_key(h) {
                Some((v, buffer_lines(m.buffers[h])))
            } else {
                None
            },
            None => None,
        }
    } else {
        None
    }
}

/// The first line in `lo .. hi` that the pattern matches.
pub open spec fn first_match_in(lines: Seq<Seq<char>>, q: Seq<char>, lo: int, hi: int) -> Option<
    int,
>
    decreases hi - lo,
{
    if lo >= hi {
        None
    } else if regex_matches(q, lines[lo]) {
        Some(lo)
    } else {
        first_match_in(lines, q, lo + 1, hi)
    }
}

/// The last line in `lo .. hi` that the pattern matches.
pub open spec fn last_match_in(lines: Seq<Seq<char>>, q: Seq<char>, lo: int, hi: int) -> Option<
    int,
>
    decreases hi - lo,
{
    if lo >= hi {
        None
    } else if regex_matches(q, lines[hi - 1]) {
        Some(hi - 1)
    } else {
        last_match_in(lines, q, lo, hi - 1)
    }
}

/// The next matching line after `cur`, wrapping around to the top (and up
/// to `cur` itself).
pub open spec fn next_match_line(lines: Seq<Seq<char>>, q: Seq<char>, cur: int) -> Option<int> {
    match first_match_in(lines, q, cur + 1, lines.len() as int) {
        Some(j) => Some(j),
        None => first_match_in(
            lines,
            q,
            0,
            if cur + 1 < lines.len() {
                cur + 1
            } else {
                lines.len() as int
            },
        ),
    }
}

/// The previous matching line before `cur`, wrapping around to the bottom
/// (and down to `cur` itself).
pub open spec fn previous_match_line(lines: Seq<Seq<char>>, q: Seq<char>, cur: int) -> Option<
    int,
> {
    match last_match_in(lines, q, 0, cur) {
        Some(j) => Some(j),
        None => last_match_in(lines, q, cur, lines.len() as int),
    }
}

/// The state with the focused view scrolled to `line`.
pub open spec fn scrolled_to(m: AppModel, v: ViewState, line: int) -> AppModel {
    with_active_layout(
        m,
        replace_first_active(active_layout(m), ViewState { scroll_offset: line as usize, ..v }),
    )
}

pub open spec fn app_search_next(m: AppModel) -> AppModel {
    let q = m.search_query;
    if q.len() > 0 && regex_compiles(q) {
        match search_context(m) {
            Some((v, lines)) => match next_match_line(lines, q, v.scroll_offset as int) {
                Some(j) => scrolled_to(m, v, j),
                None => m,
            },
            None => m,
        }
    } else {
        m
    }
}

pub open spec fn app_search_previous(m: AppModel) -> AppModel {
    let q = m.search_query;
    if q.len() > 0 && regex_compiles(q) {
        match search_context(m) {
            Some((v, lines)) => match previous_match_line(lines, q, v.scroll_offset as int) {
                Some(j) => scrolled_to(m, v, j),
                None => m,
            },
            None => m,
        }
    } else {
        m
    }
}

/// The focused view does not start past the end of its buffer (searching
/// backwards from a view past the end is an out-of-range access).
pub open spec fn search_previous_in_bounds(m: AppModel) -> bool {
    m.search_query.len() > 0 ==> match search_context(m) {
        Some((v, lines)) => v.scroll_offset <= lines.len(),
        None => true,
    }
}

/// What a key does to the state (see `App::handle_key`).
pub open spec fn app_key(m: AppModel, key: Key, ctrl: bool) -> AppModel {
    if m.is_searching {
        match key {
            Key::Esc => AppModel { is_searching: false, ..m },
            Key::Enter => AppModel { is_searching: false, ..app_search_next(m) },
            Key::Backspace => AppModel {
                search_query: if m.search_query.len() > 0 {
                    m.search_query.drop_last()
                } else {
                    m.search_query
                },
                ..m
            },
            Key::Char(c) => AppModel { search_query: m.search_query.push(c), ..m },
            _ => m,
        }
    } else if m.window_mode {
        match key {
            Key::Char('v') => app_split(m, SplitDirection::Vertical),
            Key::Tab => app_cycle_focus(m),
            Key::Char('h') => app_split(m, SplitDirection::Horizontal),
            Key::Char('q') => app_close_view(m),
            _ => AppModel { window_mode: false, ..m },
        }
    } else if key == Key::Char('/') {
        AppModel { is_searching: true, search_query: Seq::empty(), ..m }
    } else if key == Key::Char('w') && ctrl {
        AppModel { window_mode: true, ..m }
    } else if key == Key::PageDown {
        app_next_workspace(m)
    } else if key == Key::PageUp {
        app_previous_workspace(m)
    } else if key == Key::Char('>') {
        app_adjust_ratio(m, 5)
    } else if key == Key::Char('<') {
        app_adjust_ratio(m, -5)
    } else if key matches Key::Char(c) && '1' <= c <= '9' {
        app_go_to_workspace(m, ((key->Char_0 as int) - ('1' as int)) as usize)
    } else if key == Key::Char('n') {
        app_search_next(m)
    } else if key == Key::Char('N') {
        app_search_previous(m)
    } else if key == Key::F(2) {
        AppModel { show_filenames: !m.show_filenames, ..m }
    } else if key == Key::Tab || key == Key::Right {
        app_next_tab(m)
    } else if key == Key::BackTab || key == Key::Left {
        app_previous_tab(m)
    } else if key == Key::Up || key == Key::Char('k') {
        app_scroll_up(m)
    } else if key == Key::Down || key == Key::Char('j') {
        app_scroll_down(m)
    } else {
        m
    }
}

/// What `handle_key` tells the program loop.
#[derive(Clone, Copy, Debug, PartialEq, Eq, Structural)]
pub enum RunAction {
    Continue,
    /// Remove the temporary files and leave.
    Quit,
}

/// The key leaves the viewer (after its temporary files are removed).
pub open spec fn app_key_quits(m: AppModel, key: Key) -> bool {
    !m.is_searching && !m.window_mode && key == Key::Esc
}

/// What a key needs of the state: countable views for cycling the focus, a
/// focused view inside its buffer for searching backwards.
pub open spec fn app_key_ready(m: AppModel, key: Key) -> bool {
    &&& (!m.is_searching && m.window_mode && key == Key::Tab) ==> views_countable(m)
    &&& (!m.is_searching && !m.window_mode && key == Key::Char('N'))
        ==> search_previous_in_bounds(m)
}

proof fn lemma_first_match_skip(lines: Seq<Seq<char>>, q: Seq<char>, lo: int, k: int, hi: int)
    requires
        lo <= k <= hi,
        forall|j: int| lo <= j < k ==> !regex_matches(q, lines[j]),
    ensures
        first_match_in(lines, q, lo, hi) == first_match_in(lines, q, k, hi),
    decreases k - lo,
{
    if lo < k {
        lemma_first_match_skip(lines, q, lo + 1, k, hi);
    }
}

proof fn lemma_last_match_skip(lines: Seq<Seq<char>>, q: Seq<char>, lo: int, k: int, hi: int)
    requires
        lo <= k <= hi,
        forall|j: int| k <= j < hi ==> !regex_matches(q, lines[j]),
    ensures
        last_match_in(lines, q, lo, hi) == last_match_in(lines, q, lo, k),
    decreases hi - k,
{
    if k < hi {
        lemma_last_match_skip(lines, q, lo, k, hi - 1);
    }
}

/// The first line in `lo .. hi` that the pattern matches.
fn first_matching_line(pat: &SearchPattern, lines: &Vec<String>, lo: usize, hi: usize) -> (r: Option<
    usize,
>)
    requires
        hi <= lines@.len(),
    ensures
        match r {
            Some(j) => first_match_in(buffer_lines_of(lines@), pat@, lo as int, hi as int) == Some(
                j as int,
            ),
            None => first_match_in(buffer_lines_of(lines@), pat@, lo as int, hi as int) is None,
        },
{
    let ghost ls = buffer_lines_of(lines@);
    let mut j = lo;
    while j < hi
        invariant
            lo <= j,
            hi <= lines@.len(),
            ls == buffer_lines_of(lines@),
            lo <= hi ==> j <= hi,
            lo <= hi ==> first_match_in(ls, pat@, lo as int, hi as int) == first_match_in(
                ls,
                pat@,
                j as int,
                hi as int,
            ),
        decreases hi - j,
    {
        proof {
            assert(ls[j as int] == lines@[j as int]@);
        }
        if pattern_is_match(pat, lines[j].as_str()) {
            return Some(j);
        }
        proof {
            lemma_first_match_skip(ls, pat@, j as int, (j + 1) as int, hi as int);
        }
        j = j + 1;
    }
    None
}

/// The last line in `lo .. hi` that the pattern matches.
fn last_matching_line(pat: &SearchPattern, lines: &Vec<String>, lo: usize, hi: usize) -> (r: Option<
    usize,
>)
    requires
        hi <= lines@.len(),
    ensures
        match r {
            Some(j) => last_match_in(buffer_lines_of(lines@), pat@, lo as int, hi as int) == Some(
                j as int,
            ),
            None => last_match_in(buffer_lines_of(lines@), pat@, lo as int, hi as int) is None,
        },
{
    let ghost ls = buffer_lines_of(lines@);
    let mut k = hi;
    while k > lo
        invariant
            k <= hi,
            hi <= lines@.len(),
            ls == buffer_lines_of(lines@),
            k >= lo ==> last_match_in(ls, pat@, lo as int, hi as int) == last_match_in(
                ls,
                pat@,
                lo as int,
                k as int,
            ),
            k < lo ==> last_match_in(ls, pat@, lo as int, hi as int) is None,
        decreases k,
    {
        proof {
            assert(ls[k - 1] == lines@[k - 1]@);
        }
        if pattern_is_match(pat, lines[k - 1].as_str()) {
            return Some(k - 1);
        }
        k = k - 1;
    }
    None
}

/// Lines as texts.
pub open spec fn buffer_lines_of(lines: Seq<String>) -> Seq<Seq<char>> {
    lines.map_values(|l: String| l@)
}

/// Number of views of a layout, counted up to `cap`.
pub open spec fn capped_count(n: Layout, cap: nat) -> nat {
    if leaves(n).len() < cap {
        leaves(n).len()
    } else {
        cap
    }
}

proof fn lemma_roots_update(ws: Seq<Workspace>, i: int, w: Workspace)
    requires
        0 <= i < ws.len(),
    ensures
        roots_of(ws.update(i, w)) == roots_of(ws).update(i, w.root@),
{
    assert(roots_of(ws.update(i, w)) =~= roots_of(ws).update(i, w.root@));
}

proof fn lemma_root_changed(old_ws: Seq<Workspace>, i: int, new_ws: Seq<Workspace>)
    requires
        0 <= i < old_ws.len(),
        new_ws == old_ws.update(i, new_ws[i]),
    ensures
        roots_of(new_ws) == roots_of(old_ws).update(i, new_ws[i].root@),
        roots_of(old_ws)[i] == old_ws[i].root@,
        roots_of(old_ws).update(i, old_ws[i].root@) == roots_of(old_ws),
{
    lemma_roots_update(old_ws, i, new_ws[i]);
    assert(roots_of(old_ws).update(i, old_ws[i].root@) =~= roots_of(old_ws));
}

proof fn lemma_roots_push(ws: Seq<Workspace>, w: Workspace)
    ensures
        roots_of(ws.push(w)) == roots_of(ws).push(w.root@),
{
    assert(roots_of(ws.push(w)) =~= roots_of(ws).push(w.root@));
}

impl Default for App {
    fn default() -> (r: Self)
        ensures
            r@.workspaces.len() == 0,
            r@.active_workspace == 0,
            !r@.show_filenames,
            !r@.window_mode,
            !r@.is_searching,
            r@.search_query.len() == 0,
            r@.buffers == Map::<Seq<char>, Buffer>::empty(),
    {
        App {
            buffers: TextMap::new(),
            is_searching: false,
            search_query: String::new(),
            workspaces: Vec::new(),
            show_filenames: false,
            active_workspace: 0,
            window_mode: false,
        }
    }
}

impl App {
    /// The title shown for tab `tab`: its buffer's file name when file names
    /// are shown (`None` when no buffer has that name), the tab's own name
    /// otherwise.
    pub fn tab_title(&self, tab: &String) -> (r: Option<String>)
        ensures
            self.show_filenames ==> match r {
                Some(t) => self@.buffers.contains_key(tab@) && t@
                    == self@.buffers[tab@].original_name@,
                None => !self@.buffers.contains_key(tab@),
            },
            !self.show_filenames ==> (r matches Some(t) && t@ == tab@),
    {
        if self.show_filenames {
            match self.buffers.get(tab) {
                Some(b) => Some(b.original_name.clone()),
                None => None,
            }
        } else {
            Some(tab.clone())
        }
    }

    /// Shows the next workspace, from the last back to the first.
    pub fn next_workspace(&mut self)
        ensures
            final(self)@ == app_next_workspace(old(self)@),
    {
        let n = self.workspaces.len();
        if n > 0 {
            self.active_workspace = (self.active_workspace % n + 1) % n;
            proof {
                vstd::arithmetic::div_mod::lemma_add_mod_noop(
                    old(self).active_workspace as int,
                    1,
                    n as int,
                );
                if n > 1 {
                    vstd::arithmetic::div_mod::lemma_small_mod(1, n as nat);
                }
            }
        }
    }

    /// Shows the previous workspace, from the first back to the last.
    pub fn previous_workspace(&mut self)
        ensures
            final(self)@ == app_previous_workspace(old(self)@),
    {
        if self.workspaces.len() > 0 {
            if self.active_workspace == 0 {
                self.active_workspace = self.workspaces.len() - 1;
            } else {
                self.active_workspace = self.active_workspace - 1;
            }
        }
    }

    /// Shows the workspace at `index`, if there is one.
    pub fn go_to_workspace(&mut self, index: usize)
        ensures
            final(self)@ == app_go_to_workspace(old(self)@, index),
    {
        if index < self.workspaces.len() {
            self.active_workspace = index;
        }
    }

    /// Adds a workspace holding one fresh view.
    pub fn add_workspaces(&mut self) -> (r: &mut Self)
        ensures
            (*r)@.workspaces.len() == old(self)@.workspaces.len() + 1,
            (*r)@.workspaces.subrange(0, old(self)@.workspaces.len() as int)
                == old(self)@.workspaces,
            (*r)@.workspaces.last() == Layout::Leaf(fresh_view()),
            (*r)@.active_workspace == old(self)@.active_workspace,
            (*r)@.show_filenames == old(self)@.show_filenames,
            (*r)@.window_mode == old(self)@.window_mode,
            (*r)@.is_searching == old(self)@.is_searching,
            (*r)@.search_query == old(self)@.search_query,
            (*r)@.buffers == old(self)@.buffers,
            *final(self) == *final(r),
    {
        let w = Workspace { root: SplitNode::fresh() };
        proof {
            lemma_roots_push(self.workspaces@, w);
        }
        self.workspaces.push(w);
        proof {
            assert(roots_of(self.workspaces@).subrange(0, old(self).workspaces@.len() as int)
                =~= roots_of(old(self).workspaces@));
        }
        self
    }

    /// Goes to the next tab of the focused view.
    pub fn next_tab_action(&mut self)
        ensures
            final(self)@ == app_next_tab(old(self)@),
    {
        let i = self.active_workspace;
        if i < self.workspaces.len() {
            let ghost ws = self.workspaces@;
            let ghost old_root = ws[i as int].root@;
            if let Some(view) = Self::find_active_view_mut(&mut self.workspaces[i].root) {
                view.next_tab();
            }
            proof {
                let new_root = self.workspaces@[i as int].root@;
                assert(new_root == (if first_active(old_root) is Some {
                    replace_first_active(old_root, view_next_tab(first_active(old_root)->0))
                } else {
                    old_root
                }));
                assert(self.workspaces@ =~= ws.update(i as int, self.workspaces@[i as int]));
                lemma_roots_update(ws, i as int, self.workspaces@[i as int]);
                assert(roots_of(ws)[i as int] == old_root);
                assert(roots_of(ws).update(i as int, old_root) =~= roots_of(ws));
            }
        }
    }

    /// Goes to the previous tab of the focused view.
    pub fn previous_tab_action(&mut self)
        ensures
            final(self)@ == app_previous_tab(old(self)@),
    {
        let i = self.active_workspace;
        if i < self.workspaces.len() {
            let ghost ws = self.workspaces@;
            if let Some(view) = Self::find_active_view_mut(&mut self.workspaces[i].root) {
                view.previous_tab();
            }
            proof {
                lemma_root_changed(ws, i as int, self.workspaces@);
            }
        }
    }

    /// Scrolls the focused view one line up, stopping at the first line.
    pub fn scroll_up(&mut self)
        ensures
            final(self)@ == app_scroll_up(old(self)@),
    {
        let i = self.active_workspace;
        if i < self.workspaces.len() {
            let ghost ws = self.workspaces@;
            if let Some(view) = Self::find_active_view_mut(&mut self.workspaces[i].root) {
                if view.scroll_offset > 0 {
                    view.scroll_offset = view.scroll_offset - 1;
                }
            }
            proof {
                lemma_root_changed(ws, i as int, self.workspaces@);
            }
        }
    }

    /// The buffer shown by the first view of the displayed workspace.
    pub fn get_active_buffer(&self) -> (r: Option<&Buffer>)
        ensures
            match r {
                Some(b) => first_view_buffer(self@) == Some(*b),
                None => first_view_buffer(self@) is None,
            },
    {
        if self.active_workspace >= self.workspaces.len() {
            return None;
        }
        let view = Self::find_first_view(&self.workspaces[self.active_workspace].root);
        proof {
            assert(roots_of(self.workspaces@)[self.active_workspace as int]
                == self.workspaces@[self.active_workspace as int].root@);
        }
        let active_hash = match view.get_active_tab_hash() {
            Some(h) => h,
            None => return None,
        };
        self.buffers.get(active_hash)
    }

    /// Scrolls the focused view one line down, as long as a line of the
    /// first view's buffer follows.
    pub fn scroll_down(&mut self)
        ensures
            final(self)@ == app_scroll_down(old(self)@),
    {
        let max_lines: usize = match self.get_active_buffer() {
            Some(b) => b.lines.len(),
            None => 0,
        };
        let i = self.active_workspace;
        if i < self.workspaces.len() {
            let ghost ws = self.workspaces@;
            if let Some(view) = Self::find_active_view_mut(&mut self.workspaces[i].root) {
                if view.scroll_offset < max_lines && view.scroll_offset + 1 < max_lines {
                    view.scroll_offset = view.scroll_offset + 1;
                }
            }
            proof {
                lemma_root_changed(ws, i as int, self.workspaces@);
            }
        }
    }

    /// Splits the focused view of the displayed workspace in two.
    pub fn split_active_view(&mut self, direction: SplitDirection)
        ensures
            final(self)@ == app_split(old(self)@, direction),
    {
        let i = self.active_workspace;
        if i < self.workspaces.len() {
            let ghost ws = self.workspaces@;
            Self::recursive_split(&mut self.workspaces[i].root, direction);
            proof {
                lemma_root_changed(ws, i as int, self.workspaces@);
            }
        }
    }

    /// Changes by `delta` hundredths the share of the splits around the
    /// focused view of the displayed workspace.
    pub fn adjust_active_ratio(&mut self, delta: i32)
        ensures
            final(self)@ == app_adjust_ratio(old(self)@, delta as int),
    {
        let i = self.active_workspace;
        if i < self.workspaces.len() {
            let ghost ws = self.workspaces@;
            Self::recursive_adjust_ratio(&mut self.workspaces[i].root, delta);
            proof {
                lemma_root_changed(ws, i as int, self.workspaces@);
            }
        }
    }

    /// Closes the focused view of the displayed workspace; the first
    /// remaining view takes the focus, and a fresh view replaces the last.
    pub fn close_active_view(&mut self)
        ensures
            final(self)@ == app_close_view(old(self)@),
    {
        let i = self.active_workspace;
        if i < self.workspaces.len() {
            let ghost ws = self.workspaces@;
            let mut current_root = SplitNode::fresh();
            std::mem::swap(&mut current_root, &mut self.workspaces[i].root);
            match Self::recursive_close(current_root) {
                Some(new_root) => {
                    self.workspaces[i].root = new_root;
                    Self::force_focus_first(&mut self.workspaces[i].root);
                },
                None => {
                    self.workspaces[i].root = SplitNode::fresh();
                },
            }
            proof {
                assert(self.workspaces@ =~= ws.update(i as int, self.workspaces@[i as int]));
                lemma_root_changed(ws, i as int, self.workspaces@);
            }
        }
    }

    /// Number of views of a layout, counted up to `cap`.
    fn count_views_capped(node: &SplitNode, cap: usize) -> (r: usize)
        ensures
            r == capped_count(node@, cap as nat),
        decreases *node,
    {
        match node {
            SplitNode::Leaf(_) => {
                if cap == 0 {
                    0
                } else {
                    1
                }
            },
            SplitNode::Split { left, right, .. } => {
                let l = Self::count_views_capped(left, cap);
                if l == cap {
                    return cap;
                }
                let r = Self::count_views_capped(right, cap - l);
                l + r
            },
        }
    }

    /// Whether the views of the displayed workspace can be counted in a
    /// `usize` (what `cycle_focus` needs).
    pub fn views_countable(&self) -> (r: bool)
        ensures
            r == views_countable(self@),
    {
        if self.active_workspace < self.workspaces.len() {
            proof {
                assert(roots_of(self.workspaces@)[self.active_workspace as int]
                    == self.workspaces@[self.active_workspace as int].root@);
            }
            Self::count_views_capped(&self.workspaces[self.active_workspace].root, usize::MAX)
                < usize::MAX
        } else {
            true
        }
    }

    /// Moves the focus of the displayed workspace to the view after the last
    /// focused one (to the first view when none is focused), when it has
    /// more than one view.
    pub fn cycle_focus(&mut self)
        requires
            views_countable(old(self)@),
        ensures
            final(self)@ == app_cycle_focus(old(self)@),
    {
        let i = self.active_workspace;
        if i < self.workspaces.len() {
            let ghost ws = self.workspaces@;
            proof {
                assert(ws.update(i as int, ws[i as int]) =~= ws);
                lemma_root_changed(ws, i as int, ws);
                lemma_last_active_bounds(leaves(ws[i as int].root@));
            }
            let mut view_count: usize = 0;
            let mut active_idx: Option<usize> = None;
            Self::find_active_idx(&self.workspaces[i].root, &mut view_count, &mut active_idx);
            if view_count > 1 {
                let next_idx = match active_idx {
                    Some(a) => (a + 1) % view_count,
                    None => 0,
                };
                let mut current: usize = 0;
                Self::apply_focus_idx(&mut self.workspaces[i].root, &mut current, next_idx);
                proof {
                    lemma_root_changed(ws, i as int, self.workspaces@);
                }
            }
        }
    }

    /// The focused view of a layout (first focused, left or top first).
    fn find_active_view(node: &SplitNode) -> (r: Option<&View>)
        ensures
            match r {
                Some(v) => first_active(node@) == Some(v@),
                None => first_active(node@) is None,
            },
        decreases *node,
    {
        match node {
            SplitNode::Leaf(view) => {
                if view.is_active {
                    Some(view)
                } else {
                    None
                }
            },
            SplitNode::Split { left, right, .. } => {
                match Self::find_active_view(left) {
                    Some(v) => Some(v),
                    None => Self::find_active_view(right),
                }
            },
        }
    }

    /// The focused view's first line and the lines of its buffer.
    fn search_lines(&self) -> (r: Option<(usize, &Vec<String>)>)
        ensures
            match r {
                Some((cur, lines)) => search_context(self@) matches Some((v, ls)) && v.scroll_offset
                    == cur && ls == buffer_lines_of(lines@),
                None => search_context(self@) is None,
            },
    {
        if self.active_workspace >= self.workspaces.len() {
            return None;
        }
        proof {
            assert(roots_of(self.workspaces@)[self.active_workspace as int]
                == self.workspaces@[self.active_workspace as int].root@);
        }
        let view = match Self::find_active_view(&self.workspaces[self.active_workspace].root) {
            Some(v) => v,
            None => return None,
        };
        let hash = match view.get_active_tab_hash() {
            Some(h) => h,
            None => return None,
        };
        match self.buffers.get(hash) {
            Some(b) => Some((view.scroll_offset, &b.lines)),
            None => None,
        }
    }

    /// Scrolls the focused view of the displayed workspace to `line`.
    fn set_active_scroll(&mut self, line: usize)
        requires
            search_context(old(self)@) is Some,
        ensures
            final(self)@ == scrolled_to(old(self)@, first_active(active_layout(old(self)@))->0, line as int),
    {
        let i = self.active_workspace;
        let ghost ws = self.workspaces@;
        proof {
            assert(roots_of(ws)[i as int] == ws[i as int].root@);
        }
        if let Some(view) = Self::find_active_view_mut(&mut self.workspaces[i].root) {
            view.scroll_offset = line;
        }
        proof {
            lemma_root_changed(ws, i as int, self.workspaces@);
        }
    }

    /// Scrolls the focused view to the next line (after its first line,
    /// wrapping around to the top) that the search pattern matches; nothing
    /// happens for an empty or invalid pattern or when no line matches.
    pub fn search_next(&mut self)
        ensures
            final(self)@ == app_search_next(old(self)@),
    {
        if self.search_query.as_str().is_empty() {
            return;
        }
        let pat = match compile_pattern(self.search_query.as_str()) {
            Some(p) => p,
            None => return,
        };
        let target = match self.search_lines() {
            Some((current, lines)) => {
                let n = lines.len();
                let start = if current < n {
                    current + 1
                } else {
                    n
                };
                match first_matching_line(&pat, lines, start, n) {
                    Some(j) => Some(j),
                    None => first_matching_line(&pat, lines, 0, start),
                }
            },
            None => None,
        };
        if let Some(j) = target {
            self.set_active_scroll(j);
        }
    }

    /// Whether searching backwards can proceed (see
    /// `search_previous_in_bounds`).
    pub fn search_previous_ready(&self) -> (r: bool)
        ensures
            r == search_previous_in_bounds(self@),
    {
        if self.search_query.as_str().is_empty() {
            return true;
        }
        match self.search_lines() {
            Some((current, lines)) => current <= lines.len(),
            None => true,
        }
    }

    /// Scrolls the focused view to the previous line (before its first
    /// line, wrapping around to the bottom) that the search pattern matches;
    /// nothing happens for an empty or invalid pattern or when no line
    /// matches.
    pub fn search_previous(&mut self)
        requires
            search_previous_in_bounds(old(self)@),
        ensures
            final(self)@ == app_search_previous(old(self)@),
    {
        if self.search_query.as_str().is_empty() {
            return;
        }
        let pat = match compile_pattern(self.search_query.as_str()) {
            Some(p) => p,
            None => return,
        };
        let target = match self.search_lines() {
            Some((current, lines)) => {
                match last_matching_line(&pat, lines, 0, current) {
                    Some(j) => Some(j),
                    None => last_matching_line(&pat, lines, current, lines.len()),
                }
            },
            None => None,
        };
        if let Some(j) = target {
            self.set_active_scroll(j);
        }
    }

    /// Opens the file read from `path` with content `text` as a buffer named
    /// by its content and extension (see `crate::crypto::hash`), replacing any buffer of
    /// that name; its copy is to be written under `/tmp/dwx/`.
    pub fn add_file(&mut self, path: String, text: &str) -> (r: &mut Self)
        requires
            file_name_of(path@).len() > 0,
        ensures
            ({
                let k = content_name(text.spec_bytes(), extension_of(path@));
                let b = (*r)@.buffers[k];
                &&& (*r)@.buffers == old(self)@.buffers.insert(k, b)
                &&& b.original_name@ == file_name_of(path@)
                &&& b.original_path == path
                &&& b.temp_path@ == "/tmp/dwx/"@ + k
                &&& buffer_lines(b) == lines_of(text@)
                &&& (*r)@.workspaces == old(self)@.workspaces
                &&& (*r)@.active_workspace == old(self)@.active_workspace
                &&& (*r)@.show_filenames == old(self)@.show_filenames
                &&& (*r)@.window_mode == old(self)@.window_mode
                &&& (*r)@.is_searching == old(self)@.is_searching
                &&& (*r)@.search_query == old(self)@.search_query
            }),
            *final(self) == *final(r),
    {
        let name = path_file_name(path.as_str());
        let h = hash(path.as_str(), text.as_bytes());
        let mut temp = chars_of("/tmp/dwx/");
        let hc = chars_of(h.as_str());
        let mut i: usize = 0;
        let ghost prefix = temp@;
        while i < hc.len()
            invariant
                i <= hc@.len(),
                temp@ == prefix + hc@.take(i as int),
            decreases hc@.len() - i,
        {
            temp.push(hc[i]);
            i = i + 1;
            proof {
                assert(temp@ =~= prefix + hc@.take(i as int));
            }
        }
        proof {
            assert(hc@.take(hc@.len() as int) =~= hc@);
        }
        let temp_path = string_from_chars(temp.as_slice());
        let lines = split_lines(text);
        let buffer = Buffer::new(name, path, temp_path, lines);
        self.buffers.insert(h, buffer);
        self
    }

    /// Opens a file as `add_file` does, when its path has a final component
    /// to name it by; returns whether it did.
    pub fn try_add_file(&mut self, path: String, text: &str) -> (added: bool)
        ensures
            added == (file_name_of(path@).len() > 0),
            !added ==> final(self)@ == old(self)@,
            added ==> ({
                let k = content_name(text.spec_bytes(), extension_of(path@));
                let b = final(self)@.buffers[k];
                &&& final(self)@.buffers == old(self)@.buffers.insert(k, b)
                &&& b.original_name@ == file_name_of(path@)
                &&& b.original_path == path
                &&& b.temp_path@ == "/tmp/dwx/"@ + k
                &&& buffer_lines(b) == lines_of(text@)
                &&& final(self)@.workspaces == old(self)@.workspaces
                &&& final(self)@.active_workspace == old(self)@.active_workspace
                &&& final(self)@.show_filenames == old(self)@.show_filenames
                &&& final(self)@.window_mode == old(self)@.window_mode
                &&& final(self)@.is_searching == old(self)@.is_searching
                &&& final(self)@.search_query == old(self)@.search_query
            }),
    {
        let name = path_file_name(path.as_str());
        if name.as_str().is_empty() {
            return false;
        }
        self.add_file(path, text);
        true
    }

    /// Whether `handle_key` can take the key in this state (see
    /// `app_key_ready`).
    pub fn key_ready(&self, key: Key) -> (r: bool)
        ensures
            r == app_key_ready(self@, key),
    {
        if !self.is_searching && self.window_mode && key == Key::Tab {
            return self.views_countable();
        }
        if !self.is_searching && !self.window_mode && key == Key::Char('N') {
            return self.search_previous_ready();
        }
        true
    }

    /// Reacts to a key press: while a search is typed, edits it (`Enter`
    /// searches, `Esc` cancels); in window mode, splits (`v`, `h`), closes
    /// (`q`) or cycles the focus (`Tab`) of views, any other key leaving the mode;
    /// otherwise navigates workspaces, tabs, lines and matches, starts a
    /// search (`/`) or window mode (`Ctrl-w`), resizes (`<`, `>`), toggles
    /// file names (`F2`), or quits (`Esc`).
    pub fn handle_key(&mut self, key: Key, ctrl: bool) -> (r: RunAction)
        requires
            app_key_ready(old(self)@, key),
        ensures
            final(self)@ == app_key(old(self)@, key, ctrl),
            (r == RunAction::Quit) == app_key_quits(old(self)@, key),
    {
        if self.is_searching {
            match key {
                Key::Esc => {
                    self.is_searching = false;
                },
                Key::Enter => {
                    self.search_next();
                    self.is_searching = false;
                },
                Key::Backspace => {
                    string_pop(&mut self.search_query);
                },
                Key::Char(c) => {
                    string_push(&mut self.search_query, c);
                },
                _ => {},
            }
            return RunAction::Continue;
        }
        if self.window_mode {
            match key {
                Key::Char('v') => {
                    self.split_active_view(SplitDirection::Vertical);
                },
                Key::Tab => {
                    self.cycle_focus();
                },
                Key::Char('h') => {
                    self.split_active_view(SplitDirection::Horizontal);
                },
                Key::Char('q') => {
                    self.close_active_view();
                },
                _ => {
                    self.window_mode = false;
                },
            }
            return RunAction::Continue;
        }
        match key {
            Key::Char('/') => {
                self.is_searching = true;
                self.search_query = String::new();
            },
            Key::Char('w') if ctrl => {
                self.window_mode = true;
            },
            Key::PageDown => {
                self.next_workspace();
            },
            Key::PageUp => {
                self.previous_workspace();
            },
            Key::Char('>') => {
                self.adjust_active_ratio(5);
            },
            Key::Char('<') => {
                self.adjust_active_ratio(-5);
            },
            Key::Char(c) if '1' <= c && c <= '9' => {
                let index = (c as u32 - '1' as u32) as usize;
                self.go_to_workspace(index);
            },
            Key::Esc => {
                return RunAction::Quit;
            },
            Key::Char('n') => {
                self.search_next();
            },
            Key::Char('N') => {
                self.search_previous();
            },
            Key::F(2) => {
                self.show_filenames = !self.show_filenames;
            },
            Key::Tab | Key::Right => {
                self.next_tab_action();
            },
            Key::BackTab | Key::Left => {
                self.previous_tab_action();
            },
            Key::Up | Key::Char('k') => {
                self.scroll_up();
            },
            Key::Down | Key::Char('j') => {
                self.scroll_down();
            },
            _ => {},
        }
        RunAction::Continue
    }
}

} // verus!
