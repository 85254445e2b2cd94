//! Syntax highlighting of a text into coloured regions, row by row.

use vstd::prelude::*;
use crate::text::{chars_of, string_from_chars};
use syntect::easy::HighlightLines;
use syntect::highlighting::ThemeSet;
use syntect::parsing::SyntaxSet;

verus! {

/// The rows of `text` (split after each `'\n'`, which stays in its row) as
/// `syntect` highlights them with its default syntaxes and the
/// `base16-ocean.dark` theme, the syntax chosen as `find_syntax_for_file`
/// chooses it: by the file name `file_name` as an extension, then by the
/// extension `ext`, then by the first row (plain text when none matches);
/// per row, the regions with their foreground colour as red, green and
/// blue.
pub uninterp spec fn highlighted(file_name: Seq<char>, ext: Seq<char>, text: Seq<char>) -> Seq<
    Seq<(u8, u8, u8, Seq<char>)>,
>;

/// A region as values.
pub open spec fn region_view(g: (u8, u8, u8, String)) -> (u8, u8, u8, Seq<char>) {
    (g.0, g.1, g.2, g.3@)
}

/// A row of regions as values.
pub open spec fn row_view(row: Vec<(u8, u8, u8, String)>) -> Seq<(u8, u8, u8, Seq<char>)> {
    row@.map_values(|g: (u8, u8, u8, String)| region_view(g))
}

/// Rows of regions as values.
pub open spec fn rows_view(rows: Seq<Vec<(u8, u8, u8, String)>>) -> Seq<
    Seq<(u8, u8, u8, Seq<char>)>,
> {
    rows.map_values(|row: Vec<(u8, u8, u8, String)>| row_view(row))
}

/// A text without the line breaks and tabs at its end.
pub open spec fn trim_line_end(s: Seq<char>) -> Seq<char>
    decreases s.len(),
{
    if s.len() > 0 && (s.last() == '\n' || s.last() == '\r' || s.last() == '\t') {
        trim_line_end(s.drop_last())
    } else {
        s
    }
}

/// A region with its text trimmed at the end.
pub open spec fn trim_region(g: (u8, u8, u8, Seq<char>)) -> (u8, u8, u8, Seq<char>) {
    (g.0, g.1, g.2, trim_line_end(g.3))
}

/// A row with each region trimmed.
pub open spec fn trim_row(row: Seq<(u8, u8, u8, Seq<char>)>) -> Seq<(u8, u8, u8, Seq<char>)> {
    row.map_values(|g: (u8, u8, u8, Seq<char>)| trim_region(g))
}

/// Rows with each region trimmed.
pub open spec fn trimmed_rows(rows: Seq<Seq<(u8, u8, u8, Seq<char>)>>) -> Seq<
    Seq<(u8, u8, u8, Seq<char>)>,
> {
    rows.map_values(|row: Seq<(u8, u8, u8, Seq<char>)>| trim_row(row))
}

/// Highlights `text` with `syntect` (`HighlightLines::highlight_line` on
/// each row of `str::split_inclusive('\n')`, one state across rows), the
/// syntax found by file name, extension, then first row; a row that cannot
/// be highlighted gives no regions.
#[verifier::external_body]
fn highlight_text(file_name: &str, ext: &str, text: &str) -> (r: Vec<Vec<(u8, u8, u8, String)>>)
    ensures
        rows_view(r@) == highlighted(file_name@, ext@, text@),
{
    let ps = SyntaxSet::load_defaults_newlines();
    let themes = ThemeSet::load_defaults();
    let first = text.split_inclusive('\n').next().unwrap_or("");
    let syntax = ps.find_syntax_by_extension(file_name).or_else(|| ps.find_syntax_by_extension(ext))
        .or_else(|| ps.find_syntax_by_first_line(first)).unwrap_or_else(|| ps.find_syntax_plain_text());
    let mut h = HighlightLines::new(syntax, &themes.themes["base16-ocean.dark"]);
    let mut rows = Vec::new();
    for line in text.split_inclusive('\n') {
        let regions = h.highlight_line(line, &ps).unwrap_or_default();
        rows.push(regions.iter().map(|(s, t)| (s.foreground.r, s.foreground.g, s.foreground.b, t.to_string())).collect());
    }
    rows
}

/// The text without the `'\n'`, `'\r'` and `'\t'` at its end.
fn trim_text(s: &String) -> (r: String)
    ensures
        r@ == trim_line_end(s@),
{
    let cs = chars_of(s.as_str());
    let mut k: usize = cs.len();
    proof {
        assert(cs@.take(k as int) =~= s@);
    }
    while k > 0 && (cs[k - 1] == '\n' || cs[k - 1] == '\r' || cs[k - 1] == '\t')
        invariant
            k <= cs@.len(),
            trim_line_end(cs@.take(k as int)) == trim_line_end(s@),
            cs@ == s@,
        decreases k,
    {
        proof {
            assert(cs@.take(k as int).drop_last() =~= cs@.take(k - 1));
        }
        k = k - 1;
    }
    let mut out: Vec<char> = Vec::new();
    let mut i: usize = 0;
    while i < k
        invariant
            i <= k <= cs@.len(),
            out@ == cs@.take(i as int),
        decreases k - i,
    {
        out.push(cs[i]);
        i = i + 1;
        proof {
            assert(out@ =~= cs@.take(i as int));
        }
    }
    proof {
        assert(trim_line_end(cs@.take(k as int)) == cs@.take(k as int));
    }
    string_from_chars(out.as_slice())
}

/// The rows that the file viewer shows for `text` of the file named
/// `file_name` with extension `ext`, highlighted with the syntax found for
/// them: each region's text without the line breaks and tabs at its end.
pub fn viewer_rows(file_name: &str, ext: &str, text: &str) -> (r: Vec<Vec<(u8, u8, u8, String)>>)
    ensures
        rows_view(r@) == trimmed_rows(highlighted(file_name@, ext@, text@)),
{
    let rows = highlight_text(file_name, ext, text);
    let ghost hv = rows_view(rows@);
    let mut out: Vec<Vec<(u8, u8, u8, String)>> = Vec::new();
    let mut i: usize = 0;
    while i < rows.len()
        invariant
            i <= rows@.len(),
            hv == rows_view(rows@),
            out@.len() == i,
            rows_view(out@) == trimmed_rows(hv).take(i as int),
        decreases rows@.len() - i,
    {
        let row = &rows[i];
        let mut new_row: Vec<(u8, u8, u8, String)> = Vec::new();
        let mut j: usize = 0;
        while j < row.len()
            invariant
                j <= row@.len(),
                new_row@.len() == j,
                row_view(new_row) == trim_row(row_view(*row)).take(j as int),
            decreases row@.len() - j,
        {
            let g = &row[j];
            let t = trim_text(&g.3);
            let ghost before = new_row@;
            new_row.push((g.0, g.1, g.2, t));
            proof {
                assert(new_row@ == before.push((g.0, g.1, g.2, t)));
                assert(row_view(*row)[j as int] == region_view(row@[j as int]));
                assert(region_view(new_row@[j as int]) == trim_region(row_view(*row)[j as int]));
                assert forall|m: int| 0 <= m < j implies #[trigger] region_view(new_row@[m])
                    == trim_row(row_view(*row))[m] by {
                    assert(new_row@[m] == before[m]);
                    assert(before.map_values(|g: (u8, u8, u8, String)| region_view(g))[m]
                        == region_view(before[m]));
                    assert(trim_row(row_view(*row)).take(j as int)[m] == trim_row(row_view(*row))[m]);
                }
            }
            j = j + 1;
            proof {
                assert(row_view(new_row) =~= trim_row(row_view(*row)).take(j as int));
            }
        }
        proof {
            assert(trim_row(row_view(*row)).take(row@.len() as int) =~= trim_row(row_view(*row)));
        }
        let ghost before_rows = out@;
        let ghost nr = new_row;
        out.push(new_row);
        proof {
            assert(out@ == before_rows.push(nr));
            assert(hv[i as int] == row_view(rows@[i as int]));
            assert(row_view(out@[i as int]) == trimmed_rows(hv)[i as int]);
            assert forall|m: int| 0 <= m < i implies #[trigger] row_view(out@[m])
                == trimmed_rows(hv)[m] by {
                assert(out@[m] == before_rows[m]);
                assert(rows_view(before_rows)[m] == row_view(before_rows[m]));
            }
        }
        i = i + 1;
        proof {
            assert(rows_view(out@) =~= trimmed_rows(hv).take(i as int));
        }
    }
    proof {
        assert(trimmed_rows(hv).take(rows@.len() as int) =~= trimmed_rows(hv));
    }
    out
}

} // verus!
