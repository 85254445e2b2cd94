//! Properties of the view layouts and of the viewer state that hold across
//! operations.

use vstd::prelude::*;
use super::{
    active_tab_name, app_key, app_search_next, app_search_previous, buffer_lines, first_view_line_count, replace_first_active,
    active_layout, adjust_ratio, app_close_view, app_next_workspace, app_previous_workspace,
    close_active, cycle_focus_layout, first_active, first_match_in, first_part, focus_at,
    focus_first, has_active_ws, last_active_index, last_match_in, leaves, lemma_first_part_bounds,
    lemma_last_active_bounds, next_match_line, previous_match_line, split_active, split_rect,
    view_next_tab, view_previous_tab, AppModel, Layout, Rect, SplitDirection, ViewState,
};
use super::pattern::{regex_compiles, regex_matches};
use crate::keys::Key;

verus! {

/// A view without the focus.
pub open spec fn unfocused(v: ViewState) -> ViewState {
    ViewState { is_active: false, ..v }
}

/// Going to the next tab and back (or back and then next) gives the view
/// back.
pub proof fn lemma_tab_round_trip(v: ViewState)
    requires
        v.active_tab < v.tabs.len() <= usize::MAX,
    ensures
        view_previous_tab(view_next_tab(v)) == v,
        view_next_tab(view_previous_tab(v)) == v,
{
    let n = v.tabs.len() as int;
    let a = v.active_tab as int;
    if a + 1 < n {
        vstd::arithmetic::div_mod::lemma_small_mod((a + 1) as nat, n as nat);
        assert((a + 1) % n == a + 1);
    } else {
        vstd::arithmetic::div_mod::lemma_mod_self_0(n);
        assert((a + 1) % n == 0);
    }
    if a > 0 {
        vstd::arithmetic::div_mod::lemma_small_mod(a as nat, n as nat);
        assert((a - 1 + 1) % n == a);
    } else {
        vstd::arithmetic::div_mod::lemma_mod_self_0(n);
        assert((n - 1 + 1) % n == 0);
    }
}

/// Going to the next workspace and back (or back and then next) gives the
/// state back.
pub proof fn lemma_workspace_round_trip(m: AppModel)
    requires
        m.active_workspace < m.workspaces.len() <= usize::MAX,
    ensures
        app_previous_workspace(app_next_workspace(m)) == m,
        app_next_workspace(app_previous_workspace(m)) == m,
{
    let n = m.workspaces.len() as int;
    let a = m.active_workspace as int;
    if a + 1 < n {
        vstd::arithmetic::div_mod::lemma_small_mod((a + 1) as nat, n as nat);
        assert((a + 1) % n == a + 1);
    } else {
        vstd::arithmetic::div_mod::lemma_mod_self_0(n);
        assert((a + 1) % n == 0);
    }
    if a > 0 {
        vstd::arithmetic::div_mod::lemma_small_mod(a as nat, n as nat);
        assert((a - 1 + 1) % n == a);
    } else {
        vstd::arithmetic::div_mod::lemma_mod_self_0(n);
        assert((n - 1 + 1) % n == 0);
    }
}

/// The views after a split: each focused view followed by its unfocused
/// copy.
pub open spec fn split_views(v: ViewState) -> Seq<ViewState> {
    if v.is_active {
        seq![v, unfocused(v)]
    } else {
        seq![v]
    }
}

/// Splitting puts an unfocused copy right after every focused view and
/// changes nothing else among the views.
pub proof fn lemma_split_leaves(n: Layout, direction: SplitDirection)
    ensures
        leaves(split_active(n, direction)) == leaves(n).flat_map(|v: ViewState| split_views(v)),
    decreases n,
{
    let f = |v: ViewState| split_views(v);
    match n {
        Layout::Leaf(v) => {
            assert(seq![v].map_values(f) =~= seq![split_views(v)]);
            assert(seq![split_views(v)].drop_first() =~= Seq::<Seq<ViewState>>::empty());
            assert(seq![split_views(v)].flatten() =~= split_views(v) + Seq::<Seq<ViewState>>::empty().flatten());
            if v.is_active {
                reveal_with_fuel(leaves, 2);
                assert(leaves(split_active(n, direction)) =~= seq![v, unfocused(v)]);
            }
        },
        Layout::Split { left, right, .. } => {
            lemma_split_leaves(*left, direction);
            lemma_split_leaves(*right, direction);
            assert((leaves(*left) + leaves(*right)).map_values(f) =~= leaves(*left).map_values(f)
                + leaves(*right).map_values(f));
            vstd::seq_lib::lemma_flatten_concat(
                leaves(*left).map_values(f),
                leaves(*right).map_values(f),
            );
        },
    }
}

/// Closing keeps exactly the unfocused views, in order; nothing is left
/// when every view was focused.
pub proof fn lemma_close_leaves(n: Layout)
    ensures
        match close_active(n) {
            Some(r) => leaves(r) == leaves(n).filter(|v: ViewState| !v.is_active) && leaves(r).len()
                > 0,
            None => leaves(n).filter(|v: ViewState| !v.is_active).len() == 0,
        },
    decreases n,
{
    let p = |v: ViewState| !v.is_active;
    match n {
        Layout::Leaf(v) => {
            reveal_with_fuel(Seq::filter, 2);
            assert(seq![v].drop_last() =~= Seq::<ViewState>::empty());
            if !v.is_active {
                assert(seq![v].filter(p) =~= seq![v]);
            }
        },
        Layout::Split { left, right, .. } => {
            lemma_close_leaves(*left);
            lemma_close_leaves(*right);
            Seq::filter_distributes_over_add(leaves(*left), leaves(*right), p);
            lemma_leaves_nonempty(*left);
            lemma_leaves_nonempty(*right);
        },
    }
}

pub proof fn lemma_leaves_nonempty(n: Layout)
    ensures
        leaves(n).len() > 0,
    decreases n,
{
    if let Layout::Split { left, right, .. } = n {
        lemma_leaves_nonempty(*left);
    }
}

/// Closing the focused views right after splitting them leaves every view
/// in place, none focused.
pub proof fn lemma_close_after_split(n: Layout, direction: SplitDirection)
    ensures
        close_active(split_active(n, direction)) is Some,
        leaves(close_active(split_active(n, direction))->0) == leaves(n).map_values(
            |v: ViewState| unfocused(v),
        ),
    decreases n,
{
    let f = |v: ViewState| unfocused(v);
    match n {
        Layout::Leaf(v) => {
            reveal_with_fuel(close_active, 3);
            assert(seq![v].map_values(f) =~= seq![unfocused(v)]);
            if !v.is_active {
                assert(unfocused(v) == v);
            }
        },
        Layout::Split { left, right, .. } => {
            lemma_close_after_split(*left, direction);
            lemma_close_after_split(*right, direction);
            assert((leaves(*left) + leaves(*right)).map_values(f) =~= leaves(*left).map_values(f)
                + leaves(*right).map_values(f));
        },
    }
}

/// The first view of a layout whose first view was given the focus.
pub proof fn lemma_focus_first_focuses(n: Layout)
    ensures
        first_active(focus_first(n)) is Some,
    decreases n,
{
    if let Layout::Split { left, .. } = n {
        lemma_focus_first_focuses(*left);
    }
}

/// After closing, the displayed workspace always has a focused view.
pub proof fn lemma_close_keeps_focus(m: AppModel)
    requires
        has_active_ws(m),
    ensures
        first_active(active_layout(app_close_view(m))) is Some,
{
    match close_active(active_layout(m)) {
        Some(r) => lemma_focus_first_focuses(r),
        None => {},
    }
}

/// The views of `focus_at(n, start, target)`: only the one at `target`
/// (counting from `start`) is focused.
pub proof fn lemma_focus_at_leaves(n: Layout, start: int, target: int)
    ensures
        leaves(focus_at(n, start, target)) == leaves(n).map(
            |i: int, v: ViewState| ViewState { is_active: start + i == target, ..v },
        ),
    decreases n,
{
    match n {
        Layout::Leaf(v) => {
            assert(leaves(focus_at(n, start, target)) =~= leaves(n).map(
                |i: int, v: ViewState| ViewState { is_active: start + i == target, ..v },
            ));
        },
        Layout::Split { left, right, .. } => {
            let l = leaves(*left);
            lemma_focus_at_leaves(*left, start, target);
            lemma_focus_at_leaves(*right, start + l.len(), target);
            assert(leaves(focus_at(n, start, target)) =~= leaves(n).map(
                |i: int, v: ViewState| ViewState { is_active: start + i == target, ..v },
            ));
        },
    }
}

/// With more than one view, cycling leaves exactly one view focused: the
/// one after the last view that was focused (the first when none was).
pub proof fn lemma_cycle_focus_single(n: Layout)
    requires
        leaves(n).len() > 1,
    ensures
        ({
            let count = leaves(n).len() as int;
            let next = match last_active_index(leaves(n)) {
                Some(i) => (i + 1) % count,
                None => 0,
            };
            &&& 0 <= next < count
            &&& leaves(cycle_focus_layout(n)).len() == count
            &&& forall|i: int|
                0 <= i < count ==> (#[trigger] leaves(cycle_focus_layout(n))[i]).is_active == (i
                    == next)
        }),
{
    let count = leaves(n).len() as int;
    lemma_last_active_bounds(leaves(n));
    let next = match last_active_index(leaves(n)) {
        Some(i) => (i + 1) % count,
        None => 0,
    };
    lemma_focus_at_leaves(n, 0, next);
}

/// Every split of the layout gives its first part between 10 and 90
/// hundredths.
pub open spec fn ratios_in_range(n: Layout) -> bool
    decreases n,
{
    match n {
        Layout::Leaf(_) => true,
        Layout::Split { ratio, left, right, .. } => 10 <= ratio <= 90 && ratios_in_range(*left)
            && ratios_in_range(*right),
    }
}

/// Resizing keeps every share between 10 and 90 hundredths.
pub proof fn lemma_adjust_keeps_range(n: Layout, delta: int)
    requires
        ratios_in_range(n),
    ensures
        ratios_in_range(adjust_ratio(n, delta)),
    decreases n,
{
    if let Layout::Split { left, right, .. } = n {
        lemma_adjust_keeps_range(*left, delta);
        lemma_adjust_keeps_range(*right, delta);
    }
}

/// Splitting a rectangle covers it exactly: the two parts are adjacent and
/// their sizes add up to its size.
pub proof fn lemma_split_rect_partition(r: Rect, direction: SplitDirection, ratio: u32)
    requires
        direction == SplitDirection::Vertical ==> r.x + first_part(r.width, ratio) <= u16::MAX,
        direction == SplitDirection::Horizontal ==> r.y + first_part(r.height, ratio)
            <= u16::MAX,
    ensures
        ({
            let (a, b) = split_rect(r, direction, ratio);
            match direction {
                SplitDirection::Vertical => {
                    &&& a.x == r.x && a.y == r.y && b.y == r.y
                    &&& b.x == a.x + a.width
                    &&& a.width + b.width == r.width
                    &&& a.height == r.height && b.height == r.height
                },
                SplitDirection::Horizontal => {
                    &&& a.x == r.x && a.y == r.y && b.x == r.x
                    &&& b.y == a.y + a.height
                    &&& a.height + b.height == r.height
                    &&& a.width == r.width && b.width == r.width
                },
            }
        }),
{
    lemma_first_part_bounds(r.width, ratio);
    lemma_first_part_bounds(r.height, ratio);
}

proof fn lemma_first_match_found(lines: Seq<Seq<char>>, q: Seq<char>, lo: int, hi: int, j: int)
    requires
        lo <= j < hi,
        regex_matches(q, lines[j]),
    ensures
        first_match_in(lines, q, lo, hi) matches Some(k) && lo <= k <= j && regex_matches(
            q,
            lines[k],
        ),
    decreases j - lo,
{
    if !regex_matches(q, lines[lo]) {
        lemma_first_match_found(lines, q, lo + 1, hi, j);
    }
}

proof fn lemma_last_match_found(lines: Seq<Seq<char>>, q: Seq<char>, lo: int, hi: int, j: int)
    requires
        lo <= j < hi,
        regex_matches(q, lines[j]),
    ensures
        last_match_in(lines, q, lo, hi) matches Some(k) && j <= k < hi && regex_matches(
            q,
            lines[k],
        ),
    decreases hi - j,
{
    if !regex_matches(q, lines[hi - 1]) {
        lemma_last_match_found(lines, q, lo, hi - 1, j);
    }
}

/// When some line matches, searching forwards lands on a matching line.
pub proof fn lemma_search_next_finds(lines: Seq<Seq<char>>, q: Seq<char>, cur: int, j: int)
    requires
        0 <= cur,
        0 <= j < lines.len(),
        regex_matches(q, lines[j]),
    ensures
        next_match_line(lines, q, cur) matches Some(k) && 0 <= k < lines.len() && regex_matches(
            q,
            lines[k],
        ),
{
    if cur + 1 <= j {
        lemma_first_match_found(lines, q, cur + 1, lines.len() as int, j);
    } else {
        if first_match_in(lines, q, cur + 1, lines.len() as int) is None {
            lemma_first_match_found(
                lines,
                q,
                0,
                if cur + 1 < lines.len() {
                    cur + 1
                } else {
                    lines.len() as int
                },
                j,
            );
        } else {
            lemma_first_match_bounds(lines, q, cur + 1, lines.len() as int);
        }
    }
}

/// When some line matches, searching backwards from inside the buffer lands
/// on a matching line.
pub proof fn lemma_search_previous_finds(lines: Seq<Seq<char>>, q: Seq<char>, cur: int, j: int)
    requires
        0 <= cur <= lines.len(),
        0 <= j < lines.len(),
        regex_matches(q, lines[j]),
    ensures
        previous_match_line(lines, q, cur) matches Some(k) && 0 <= k < lines.len()
            && regex_matches(q, lines[k]),
{
    if j < cur {
        lemma_last_match_found(lines, q, 0, cur, j);
    } else {
        if last_match_in(lines, q, 0, cur) is None {
            lemma_last_match_found(lines, q, cur, lines.len() as int, j);
        } else {
            lemma_last_match_bounds(lines, q, 0, cur);
        }
    }
}

proof fn lemma_first_match_bounds(lines: Seq<Seq<char>>, q: Seq<char>, lo: int, hi: int)
    ensures
        first_match_in(lines, q, lo, hi) matches Some(k) ==> lo <= k < hi && regex_matches(
            q,
            lines[k],
        ),
    decreases hi - lo,
{
    if lo < hi && !regex_matches(q, lines[lo]) {
        lemma_first_match_bounds(lines, q, lo + 1, hi);
    }
}

proof fn lemma_last_match_bounds(lines: Seq<Seq<char>>, q: Seq<char>, lo: int, hi: int)
    ensures
        last_match_in(lines, q, lo, hi) matches Some(k) ==> lo <= k < hi && regex_matches(
            q,
            lines[k],
        ),
    decreases hi - lo,
{
    if lo < hi && !regex_matches(q, lines[hi - 1]) {
        lemma_last_match_bounds(lines, q, lo, hi - 1);
    }
}

proof fn lemma_first_match_exact(lines: Seq<Seq<char>>, q: Seq<char>, lo: int, hi: int)
    requires
        0 <= lo,
        hi <= lines.len(),
    ensures
        match first_match_in(lines, q, lo, hi) {
            Some(k) => lo <= k < hi && regex_matches(q, lines[k]) && forall|i: int|
                lo <= i < k ==> !regex_matches(q, #[trigger] lines[i]),
            None => forall|i: int| lo <= i < hi ==> !regex_matches(q, #[trigger] lines[i]),
        },
    decreases hi - lo,
{
    if lo < hi && !regex_matches(q, lines[lo]) {
        lemma_first_match_exact(lines, q, lo + 1, hi);
    }
}

proof fn lemma_first_active_focused(n: Layout)
    ensures
        first_active(n) matches Some(v) ==> v.is_active,
    decreases n,
{
    match n {
        Layout::Leaf(_) => {},
        Layout::Split { left, right, .. } => {
            lemma_first_active_focused(*left);
            lemma_first_active_focused(*right);
        },
    }
}

proof fn lemma_replace_first_active(n: Layout, w: ViewState)
    requires
        first_active(n) is Some,
        w.is_active,
    ensures
        first_active(replace_first_active(n, w)) == Some(w),
    decreases n,
{
    match n {
        Layout::Leaf(_) => {},
        Layout::Split { left, right, .. } => {
            if first_active(*left) is Some {
                lemma_replace_first_active(*left, w);
            } else {
                lemma_replace_first_active(*right, w);
            }
        },
    }
}

/// Line `k` lies strictly after line `cur` and before line `j`, going down
/// the buffer and wrapping around from the bottom to the top.
pub open spec fn strictly_between_wrapping(cur: int, j: int, k: int) -> bool {
    (cur < k && k < j) || (j <= cur && (cur < k || k < j))
}

/// Searching forwards (`n`) looks in the buffer of the focused view's own
/// visible tab: when some line of it matches the pattern, the focused view
/// is moved to a matching line, the first one after its current line going
/// down and wrapping around to the top, and nothing else of the view
/// changes; when no line matches, nothing changes.
pub proof fn lemma_search_next_in_focused_buffer(m: AppModel)
    requires
        has_active_ws(m),
        first_active(active_layout(m)) is Some,
        active_tab_name(first_active(active_layout(m))->0) is Some,
        m.buffers.contains_key(active_tab_name(first_active(active_layout(m))->0)->0),
        m.search_query.len() > 0,
        regex_compiles(m.search_query),
    ensures
        ({
            let v = first_active(active_layout(m))->0;
            let lines = buffer_lines(m.buffers[active_tab_name(v)->0]);
            let q = m.search_query;
            let post = app_search_next(m);
            if exists|i: int| 0 <= i < lines.len() && regex_matches(q, #[trigger] lines[i]) {
                exists|j: int|
                    #![trigger lines[j]]
                    {
                        &&& 0 <= j < lines.len()
                        &&& regex_matches(q, lines[j])
                        &&& first_active(active_layout(post)) == Some(
                            ViewState { scroll_offset: j as usize, ..v },
                        )
                        &&& forall|k: int|
                            0 <= k < lines.len() && strictly_between_wrapping(
                                v.scroll_offset as int,
                                j,
                                k,
                            ) ==> !regex_matches(q, #[trigger] lines[k])
                    }
            } else {
                post == m
            }
        }),
        app_search_next(m).buffers == m.buffers,
        app_search_next(m).active_workspace == m.active_workspace,
        app_search_next(m).workspaces.len() == m.workspaces.len(),
{
    let v = first_active(active_layout(m))->0;
    let lines = buffer_lines(m.buffers[active_tab_name(v)->0]);
    let q = m.search_query;
    let cur = v.scroll_offset as int;
    let len = lines.len() as int;
    let hi = if cur + 1 < len {
        cur + 1
    } else {
        len
    };
    lemma_first_match_exact(lines, q, cur + 1, len);
    lemma_first_match_exact(lines, q, 0, hi);
    lemma_first_active_focused(active_layout(m));
    match next_match_line(lines, q, cur) {
        Some(j) => {
            let w = ViewState { scroll_offset: j as usize, ..v };
            lemma_replace_first_active(active_layout(m), w);
            assert(active_layout(app_search_next(m)) == replace_first_active(active_layout(m), w));
            assert(regex_matches(q, lines[j]));
        },
        None => {
            assert forall|i: int| 0 <= i < lines.len() implies !regex_matches(q, #[trigger] lines[i]) by {
                if i > cur {
                } else {
                }
            }
        },
    }
}

/// Splitting a focused view alone in a direction gives a half-and-half
/// split in that very direction, the view first and an unfocused copy
/// second.
pub proof fn lemma_split_leaf_in_direction(v: ViewState, direction: SplitDirection)
    requires
        v.is_active,
    ensures
        split_active(Layout::Leaf(v), direction) matches Layout::Split {
            ratio,
            direction: d,
            left,
            right,
        } && d == direction && ratio == 50 && *left == Layout::Leaf(v) && *right == Layout::Leaf(
            unfocused(v),
        ),
{
}

/// The direction of a split matters: splitting a layout that has a focused
/// view side by side and one above the other give different layouts.
pub proof fn lemma_split_directions_differ(n: Layout)
    requires
        first_active(n) is Some,
    ensures
        split_active(n, SplitDirection::Vertical) != split_active(n, SplitDirection::Horizontal),
    decreases n,
{
    match n {
        Layout::Leaf(v) => {},
        Layout::Split { left, right, .. } => {
            if first_active(*left) is Some {
                lemma_split_directions_differ(*left);
            } else {
                lemma_split_directions_differ(*right);
            }
        },
    }
}

/// Resizing changes the share of a split that has a focused view as its left
/// (or top) or as its right (or bottom) direct part by `delta`, kept
/// between 10 and 90; a split without a focused direct part keeps its
/// share.
pub proof fn lemma_adjust_direct_parts(
    ratio: u32,
    direction: SplitDirection,
    left: Layout,
    right: Layout,
    delta: int,
)
    ensures
        adjust_ratio(
            Layout::Split { ratio, direction, left: Box::new(left), right: Box::new(right) },
            delta,
        ) matches Layout::Split { ratio: r, direction: d, .. } && d == direction && r == (if (left
            matches Layout::Leaf(a) && a.is_active) || (right matches Layout::Leaf(b)
            && b.is_active) {
            if ratio + delta < 10 {
                10
            } else if ratio + delta > 90 {
                90
            } else {
                ratio + delta
            }
        } else {
            ratio as int
        }),
{
}

/// In normal mode, `j` (or down) moves the focused view one line further
/// down when a line of the shown buffer follows, and `k` (or up) one line up
/// when it is not at the top; nothing else of the view changes.
pub proof fn lemma_line_keys(m: AppModel, ctrl: bool)
    requires
        !m.is_searching,
        !m.window_mode,
        has_active_ws(m),
        first_active(active_layout(m)) is Some,
    ensures
        ({
            let v = first_active(active_layout(m))->0;
            let below = ViewState {
                scroll_offset: if v.scroll_offset + 1 < first_view_line_count(m) {
                    (v.scroll_offset + 1) as usize
                } else {
                    v.scroll_offset
                },
                ..v
            };
            let above = ViewState {
                scroll_offset: if v.scroll_offset > 0 {
                    (v.scroll_offset - 1) as usize
                } else {
                    0
                },
                ..v
            };
            &&& first_active(active_layout(app_key(m, Key::Char('j'), ctrl))) == Some(below)
            &&& first_active(active_layout(app_key(m, Key::Down, ctrl))) == Some(below)
            &&& first_active(active_layout(app_key(m, Key::Char('k'), ctrl))) == Some(above)
            &&& first_active(active_layout(app_key(m, Key::Up, ctrl))) == Some(above)
        }),
{
    let v = first_active(active_layout(m))->0;
    lemma_first_active_focused(active_layout(m));
    let below = ViewState {
        scroll_offset: if v.scroll_offset + 1 < first_view_line_count(m) {
            (v.scroll_offset + 1) as usize
        } else {
            v.scroll_offset
        },
        ..v
    };
    let above = ViewState {
        scroll_offset: if v.scroll_offset > 0 {
            (v.scroll_offset - 1) as usize
        } else {
            0
        },
        ..v
    };
    lemma_replace_first_active(active_layout(m), below);
    lemma_replace_first_active(active_layout(m), above);
    assert(app_key(m, Key::Char('j'), ctrl) == super::app_scroll_down(m));
    assert(app_key(m, Key::Down, ctrl) == super::app_scroll_down(m));
    assert(app_key(m, Key::Char('k'), ctrl) == super::app_scroll_up(m));
    assert(app_key(m, Key::Up, ctrl) == super::app_scroll_up(m));
}

proof fn lemma_last_match_exact(lines: Seq<Seq<char>>, q: Seq<char>, lo: int, hi: int)
    requires
        0 <= lo,
        hi <= lines.len(),
    ensures
        match last_match_in(lines, q, lo, hi) {
            Some(k) => lo <= k < hi && regex_matches(q, lines[k]) && forall|i: int|
                k < i < hi ==> !regex_matches(q, #[trigger] lines[i]),
            None => forall|i: int| lo <= i < hi ==> !regex_matches(q, #[trigger] lines[i]),
        },
    decreases hi - lo,
{
    if lo < hi && !regex_matches(q, lines[hi - 1]) {
        lemma_last_match_exact(lines, q, lo, hi - 1);
    }
}

/// Searching backwards (`N`) from a view inside its buffer looks in the
/// buffer of the focused view's own visible tab: when some line of it
/// matches, the focused view is moved to a matching line, the first one
/// before its current line going up and wrapping around to the bottom, and
/// nothing else of the view changes; when no line matches, nothing changes.
pub proof fn lemma_search_previous_in_focused_buffer(m: AppModel)
    requires
        has_active_ws(m),
        first_active(active_layout(m)) is Some,
        active_tab_name(first_active(active_layout(m))->0) is Some,
        m.buffers.contains_key(active_tab_name(first_active(active_layout(m))->0)->0),
        first_active(active_layout(m))->0.scroll_offset <= buffer_lines(
            m.buffers[active_tab_name(first_active(active_layout(m))->0)->0],
        ).len(),
        m.search_query.len() > 0,
        regex_compiles(m.search_query),
    ensures
        ({
            let v = first_active(active_layout(m))->0;
            let lines = buffer_lines(m.buffers[active_tab_name(v)->0]);
            let q = m.search_query;
            let post = app_search_previous(m);
            if exists|i: int| 0 <= i < lines.len() && regex_matches(q, #[trigger] lines[i]) {
                exists|j: int|
                    #![trigger lines[j]]
                    {
                        &&& 0 <= j < lines.len()
                        &&& regex_matches(q, lines[j])
                        &&& first_active(active_layout(post)) == Some(
                            ViewState { scroll_offset: j as usize, ..v },
                        )
                        &&& forall|k: int|
                            0 <= k < lines.len() && strictly_between_wrapping(
                                j,
                                v.scroll_offset as int,
                                k,
                            ) ==> !regex_matches(q, #[trigger] lines[k])
                    }
            } else {
                post == m
            }
        }),
{
    let v = first_active(active_layout(m))->0;
    let lines = buffer_lines(m.buffers[active_tab_name(v)->0]);
    let q = m.search_query;
    let cur = v.scroll_offset as int;
    let len = lines.len() as int;
    lemma_last_match_exact(lines, q, 0, cur);
    lemma_last_match_exact(lines, q, cur, len);
    lemma_first_active_focused(active_layout(m));
    match previous_match_line(lines, q, cur) {
        Some(j) => {
            let w = ViewState { scroll_offset: j as usize, ..v };
            lemma_replace_first_active(active_layout(m), w);
            assert(active_layout(app_search_previous(m)) == replace_first_active(active_layout(m), w));
            assert(regex_matches(q, lines[j]));
        },
        None => {
            assert forall|i: int| 0 <= i < lines.len() implies !regex_matches(q, #[trigger] lines[i]) by {
                if i < cur {
                } else {
                }
            }
        },
    }
}

} // verus!
