//! Scrolling of the full-screen file viewer.

use vstd::prelude::*;
use crate::keys::Key;

verus! {

/// What the viewer does after a key.
#[derive(Clone, Copy, Debug, PartialEq, Eq, Structural)]
pub enum ViewerStep {
    Quit,
    /// Show the file from this line on.
    Show(usize),
}

/// `a - b`, or 0 when `b` is larger.
pub open spec fn sat_sub(a: int, b: int) -> int {
    if a > b {
        a - b
    } else {
        0
    }
}

/// What a key does to the viewer showing `rows` lines of a file of `total`
/// lines from line `offset`: `q`/`Esc` quit; `j`/down and `k`/up move one
/// line (not past the end, not above the top); `d` and `u` move half a
/// screen (`d` not past the last screenful).
pub open spec fn viewer_step(offset: usize, key: Key, rows: usize, total: usize) -> ViewerStep {
    match key {
        Key::Char('q') | Key::Esc => ViewerStep::Quit,
        Key::Char('j') | Key::Down => if offset + rows < total {
            ViewerStep::Show((offset + 1) as usize)
        } else {
            ViewerStep::Show(offset)
        },
        Key::Char('k') | Key::Up => ViewerStep::Show(sat_sub(offset as int, 1) as usize),
        Key::Char('d') => {
            let down = offset + rows / 2;
            let limit = sat_sub(total as int, rows as int);
            ViewerStep::Show(
                if down < limit {
                    down as usize
                } else {
                    limit as usize
                },
            )
        },
        Key::Char('u') => ViewerStep::Show(sat_sub(offset as int, (rows / 2) as int) as usize),
        _ => ViewerStep::Show(offset),
    }
}

/// The viewer's reaction to a key (see `viewer_step`).
pub fn viewer_key(offset: usize, key: Key, rows: usize, total: usize) -> (r: ViewerStep)
    ensures
        r == viewer_step(offset, key, rows, total),
{
    match key {
        Key::Char('q') | Key::Esc => ViewerStep::Quit,
        Key::Char('j') | Key::Down => {
            if rows < total && offset < total - rows {
                ViewerStep::Show(offset + 1)
            } else {
                ViewerStep::Show(offset)
            }
        },
        Key::Char('k') | Key::Up => {
            if offset > 0 {
                ViewerStep::Show(offset - 1)
            } else {
                ViewerStep::Show(0)
            }
        },
        Key::Char('d') => {
            let limit = if total > rows {
                total - rows
            } else {
                0
            };
            let half = rows / 2;
            if offset < limit && half < limit - offset {
                ViewerStep::Show(offset + half)
            } else {
                ViewerStep::Show(limit)
            }
        },
        Key::Char('u') => {
            let half = rows / 2;
            if offset > half {
                ViewerStep::Show(offset - half)
            } else {
                ViewerStep::Show(0)
            }
        },
        _ => ViewerStep::Show(offset),
    }
}

/// Scrolling never passes the last page: from an offset that shows no
/// space after the end (at most `total - rows`, or 0), every key leads to
/// such an offset again, or quits.
pub proof fn lemma_viewer_stays_in_bounds(offset: usize, key: Key, rows: usize, total: usize)
    requires
        offset <= sat_sub(total as int, rows as int),
    ensures
        match viewer_step(offset, key, rows, total) {
            ViewerStep::Show(o) => o <= sat_sub(total as int, rows as int),
            ViewerStep::Quit => true,
        },
{
}

/// Where a run of keys leaves the viewer, starting at `offset`: the last
/// offset shown, or `Quit` when a key of the run quits.
pub open spec fn viewer_run(offset: usize, keys: Seq<Key>, rows: usize, total: usize) -> ViewerStep
    decreases keys.len(),
{
    if keys.len() == 0 {
        ViewerStep::Show(offset)
    } else {
        match viewer_step(offset, keys[0], rows, total) {
            ViewerStep::Quit => ViewerStep::Quit,
            ViewerStep::Show(o) => viewer_run(o, keys.drop_first(), rows, total),
        }
    }
}

/// Over any run of keys from an offset within bounds (the top of a file is
/// one), the viewer never scrolls
/// past the last page.
pub proof fn lemma_viewer_run_in_bounds(offset: usize, keys: Seq<Key>, rows: usize, total: usize)
    requires
        offset <= sat_sub(total as int, rows as int),
    ensures
        match viewer_run(offset, keys, rows, total) {
            ViewerStep::Show(o) => o <= sat_sub(total as int, rows as int),
            ViewerStep::Quit => true,
        },
    decreases keys.len(),
{
    if keys.len() > 0 {
        lemma_viewer_stays_in_bounds(offset, keys[0], rows, total);
        match viewer_step(offset, keys[0], rows, total) {
            ViewerStep::Quit => {},
            ViewerStep::Show(o) => {
                lemma_viewer_run_in_bounds(o, keys.drop_first(), rows, total);
            },
        }
    }
}

} // verus!
