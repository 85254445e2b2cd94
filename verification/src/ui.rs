//! Layout decisions of the three-column file view.

use vstd::prelude::*;
use crate::text::{chars_of, string_from_chars};
use crate::tree::FileItem;

verus! {

/// The color an entry is drawn in.
#[derive(Clone, Copy, Debug, PartialEq, Eq, Structural)]
pub enum EntryColor {
    Blue,
    Green,
    Cyan,
    White,
}

/// Directories blue, executables green, symbolic links cyan, the rest
/// white (the first that applies).
pub open spec fn color_of(item: FileItem) -> EntryColor {
    if item.is_dir {
        EntryColor::Blue
    } else if item.is_executable {
        EntryColor::Green
    } else if item.is_symlink {
        EntryColor::Cyan
    } else {
        EntryColor::White
    }
}

/// The color an entry is drawn in.
pub fn entry_color(item: &FileItem) -> (r: EntryColor)
    ensures
        r == color_of(*item),
{
    if item.is_dir {
        EntryColor::Blue
    } else if item.is_executable {
        EntryColor::Green
    } else if item.is_symlink {
        EntryColor::Cyan
    } else {
        EntryColor::White
    }
}

/// An entry's name as listed: directories end with `/`.
pub fn display_name(item: &FileItem) -> (r: String)
    ensures
        r@ == (if item.is_dir {
            item.name@.push('/')
        } else {
            item.name@
        }),
{
    if item.is_dir {
        let mut cs = chars_of(item.name.as_str());
        cs.push('/');
        string_from_chars(cs.as_slice())
    } else {
        item.name.clone()
    }
}

/// Widths of the parent and current columns for a terminal `cols` wide: a
/// fifth and three tenths of it, rounded to the nearest cell (halves up).
pub fn column_widths(cols: u16) -> (r: (u16, u16))
    ensures
        r.0 == (cols * 20 + 50) / 100,
        r.1 == (cols * 30 + 50) / 100,
{
    let c = cols as u32;
    (((c * 20 + 50) / 100) as u16, ((c * 30 + 50) / 100) as u16)
}

/// Number of blank cells that pad the bottom bar holding `text_len` bytes
/// of text to the width of the terminal.
pub fn omnibar_fill(cols: u16, text_len: usize) -> (r: usize)
    ensures
        r == (if cols > text_len + 4 {
            cols - (text_len + 4)
        } else {
            0
        }),
{
    if text_len < cols as usize && (cols as usize) - text_len > 4 {
        cols as usize - text_len - 4
    } else {
        0
    }
}

/// Total width of the first `k` regions.
pub open spec fn width_before(widths: Seq<usize>, k: int) -> int
    decreases k,
{
    if k <= 0 {
        0
    } else {
        width_before(widths, k - 1) + widths[k - 1]
    }
}

/// How a line of text regions is fitted into a width: the first `full`
/// regions are shown whole; when `cut` is `Some(n)`, the next region is cut
/// to its first `n` characters and an ellipsis follows.
pub struct RegionCut {
    pub full: usize,
    pub cut: Option<usize>,
}

/// Regions are shown whole while they fit; the first that does not is cut
/// to leave one cell for the ellipsis.
pub open spec fn fits(widths: Seq<usize>, max_width: usize, r: RegionCut) -> bool {
    &&& r.full <= widths.len()
    &&& forall|k: int| 0 <= k < r.full ==> width_before(widths, k) + widths[k] <= max_width
    &&& match r.cut {
        None => r.full == widths.len(),
        Some(n) => {
            &&& r.full < widths.len()
            &&& width_before(widths, r.full as int) + widths[r.full as int] > max_width
            &&& n == (if max_width > width_before(widths, r.full as int) + 1 {
                max_width - (width_before(widths, r.full as int) + 1)
            } else {
                0
            })
        },
    }
}

/// Fits a line of text regions, given their widths in characters, into
/// `max_width` cells.
pub fn cut_regions(widths: &Vec<usize>, max_width: usize) -> (r: RegionCut)
    ensures
        fits(widths@, max_width, r),
{
    let mut current: usize = 0;
    let mut i: usize = 0;
    while i < widths.len()
        invariant
            i <= widths@.len(),
            current == width_before(widths@, i as int),
            current <= max_width,
            forall|k: int| 0 <= k < i ==> width_before(widths@, k) + widths@[k] <= max_width,
        decreases widths@.len() - i,
    {
        let w = widths[i];
        if w > max_width - current {
            let n = if max_width > current && max_width - current > 1 {
                max_width - current - 1
            } else {
                0
            };
            return RegionCut { full: i, cut: Some(n) };
        }
        current = current + w;
        i = i + 1;
    }
    RegionCut { full: i, cut: None }
}

/// The first `width` characters of a line (all of it when shorter).
pub open spec fn cut_line(s: Seq<char>, width: nat) -> Seq<char> {
    if s.len() <= width {
        s
    } else {
        s.take(width as int)
    }
}

/// How many lines a view of `height` rows shows from line `offset` on.
pub open spec fn shown_count(len: nat, offset: nat, height: nat) -> nat {
    if offset >= len {
        0
    } else if len - offset < height {
        (len - offset) as nat
    } else {
        height
    }
}

/// The lines a view shows: from line `offset`, at most `height` of them,
/// each cut to `width` characters.
pub open spec fn window_rows(lines: Seq<Seq<char>>, offset: nat, height: nat, width: nat) -> Seq<
    Seq<char>,
> {
    Seq::new(
        shown_count(lines.len(), offset, height),
        |i: int| cut_line(lines[offset + i], width),
    )
}

fn cut_text(s: &String, width: usize) -> (r: String)
    ensures
        r@ == cut_line(s@, width as nat),
{
    let cs = chars_of(s.as_str());
    if cs.len() <= width {
        return s.clone();
    }
    let mut out: Vec<char> = Vec::new();
    let mut i: usize = 0;
    while i < width
        invariant
            i <= width < cs@.len(),
            out@ == cs@.take(i as int),
        decreases width - i,
    {
        out.push(cs[i]);
        i = i + 1;
        proof {
            assert(out@ =~= cs@.take(i as int));
        }
    }
    string_from_chars(out.as_slice())
}

/// The lines a view of `height` rows and `width` columns shows of a
/// buffer scrolled to line `offset`.
pub fn visible_lines(lines: &Vec<String>, offset: usize, height: usize, width: usize) -> (r: Vec<String>)
    ensures
        r@.map_values(|l: String| l@) == window_rows(
            lines@.map_values(|l: String| l@),
            offset as nat,
            height as nat,
            width as nat,
        ),
{
    let ghost lv = lines@.map_values(|l: String| l@);
    let n: usize = if offset >= lines.len() {
        0
    } else if lines.len() - offset < height {
        lines.len() - offset
    } else {
        height
    };
    let mut out: Vec<String> = Vec::new();
    let mut i: usize = 0;
    while i < n
        invariant
            n == shown_count(lines@.len(), offset as nat, height as nat),
            i <= n,
            n > 0 ==> offset + n <= lines.len(),
            lv == lines@.map_values(|l: String| l@),
            out@.len() == i,
            forall|k: int| 0 <= k < i ==> #[trigger] out@[k]@ == cut_line(lv[offset + k], width as nat),
        decreases n - i,
    {
        let t = cut_text(&lines[offset + i], width);
        out.push(t);
        i = i + 1;
    }
    proof {
        assert(out@.map_values(|l: String| l@) =~= window_rows(lv, offset as nat, height as nat, width as nat));
    }
    out
}

/// The rows of the current-directory column: from position `scroll` of the
/// visible indices, at most `max_rows` of them, each with the entry index
/// and whether the cursor is on it.
pub fn visible_entries(filtered: &Vec<usize>, scroll: usize, max_rows: usize, selected: usize) -> (r: Vec<(usize, bool)>)
    ensures
        r@.len() == shown_count(filtered@.len(), scroll as nat, max_rows as nat),
        forall|i: int|
            0 <= i < r@.len() ==> #[trigger] r@[i] == (filtered@[scroll + i], scroll + i == selected),
{
    let n: usize = if scroll >= filtered.len() {
        0
    } else if filtered.len() - scroll < max_rows {
        filtered.len() - scroll
    } else {
        max_rows
    };
    let mut out: Vec<(usize, bool)> = Vec::new();
    let mut i: usize = 0;
    while i < n
        invariant
            n == shown_count(filtered@.len(), scroll as nat, max_rows as nat),
            i <= n,
            n > 0 ==> scroll + n <= filtered.len(),
            out@.len() == i,
            forall|k: int| 0 <= k < i ==> #[trigger] out@[k] == (filtered@[scroll + k], scroll + k == selected),
        decreases n - i,
    {
        out.push((filtered[scroll + i], scroll + i == selected));
        i = i + 1;
    }
    out
}

} // verus!
