//! Character-sequence helpers shared by the navigation and view logic.

use vstd::prelude::*;

verus! {

/// Lexicographic order on character sequences, by code point.  This is the
/// order of `String`'s `Ord`, since UTF-8 preserves code point order.
pub open spec fn seq_le(a: Seq<char>, b: Seq<char>) -> bool
    decreases a.len(),
{
    if a.len() == 0 {
        true
    } else if b.len() == 0 {
        false
    } else if a[0] < b[0] {
        true
    } else if a[0] > b[0] {
        false
    } else {
        seq_le(a.drop_first(), b.drop_first())
    }
}

/// `needle` occurs in `hay` starting at position `i`.
pub open spec fn occurs_at(hay: Seq<char>, needle: Seq<char>, i: int) -> bool {
    &&& 0 <= i
    &&& i + needle.len() <= hay.len()
    &&& hay.subrange(i, i + needle.len()) == needle
}

/// `needle` is a contiguous part of `hay` (the meaning of `str::contains`
/// with a string pattern).
pub open spec fn has_infix(hay: Seq<char>, needle: Seq<char>) -> bool {
    exists|i: int| occurs_at(hay, needle, i)
}

/// `s` ends with `suffix`.
pub open spec fn has_suffix(s: Seq<char>, suffix: Seq<char>) -> bool {
    suffix.len() <= s.len() && s.subrange(s.len() - suffix.len(), s.len() as int) == suffix
}

/// Index of the first `'\n'` in `s`, or `s.len()` when there is none.
pub open spec fn newline_index(s: Seq<char>) -> int
    decreases s.len(),
{
    if s.len() == 0 {
        0
    } else if s[0] == '\n' {
        0
    } else {
        1 + newline_index(s.drop_first())
    }
}

/// A line without its `'\r'` when it ended in `"\r\n"`.
pub open spec fn strip_cr(line: Seq<char>) -> Seq<char> {
    if line.len() > 0 && line.last() == '\r' {
        line.drop_last()
    } else {
        line
    }
}

/// The lines of a text as `str::lines` yields them: split at `"\n"` or
/// `"\r\n"`, the final line ending being optional.
pub open spec fn lines_of(s: Seq<char>) -> Seq<Seq<char>>
    decreases s.len(),
{
    if s.len() == 0 {
        Seq::empty()
    } else {
        let k = newline_index(s);
        proof {
            lemma_newline_index_bounds(s);
        }
        if k == s.len() {
            seq![s]
        } else {
            seq![strip_cr(s.take(k))] + lines_of(s.skip(k + 1))
        }
    }
}

/// `text` cut to `width` characters for display: when it is longer, its first
/// `width - 1` characters followed by an ellipsis.
pub open spec fn fit_width(text: Seq<char>, width: nat) -> Seq<char> {
    if text.len() > width {
        let keep: int = if width == 0 { 0 } else { width - 1 };
        text.take(keep).push('…')
    } else {
        text
    }
}

/// Lowercase form of a text as `str::to_lowercase` computes it (full Unicode
/// case mapping).
pub uninterp spec fn lowercase(s: Seq<char>) -> Seq<char>;

/// Every character of the text is below 128.
pub open spec fn is_ascii_text(s: Seq<char>) -> bool {
    forall|i: int| 0 <= i < s.len() ==> (s[i] as u32) < 128
}

/// The ASCII lowercase of a character: `A`..`Z` become `a`..`z`, anything
/// else stays.
pub open spec fn ascii_lower(c: char) -> char {
    if 'A' <= c && c <= 'Z' {
        ((c as u32) + 32) as char
    } else {
        c
    }
}

/// The ASCII lowercase of a text, character by character.
pub open spec fn ascii_lowercase(s: Seq<char>) -> Seq<char> {
    s.map_values(|c: char| ascii_lower(c))
}

pub proof fn lemma_newline_index_bounds(s: Seq<char>)
    ensures
        0 <= newline_index(s) <= s.len(),
        newline_index(s) < s.len() ==> s[newline_index(s)] == '\n',
        forall|j: int| 0 <= j < newline_index(s) ==> s[j] != '\n',
    decreases s.len(),
{
    if s.len() > 0 && s[0] != '\n' {
        lemma_newline_index_bounds(s.drop_first());
        assert forall|j: int| 0 <= j < newline_index(s) implies s[j] != '\n' by {
            if j > 0 {
                assert(s[j] == s.drop_first()[j - 1]);
            }
        }
    }
}

proof fn lemma_newline_index_is(s: Seq<char>, k: int)
    requires
        0 <= k <= s.len(),
        k < s.len() ==> s[k] == '\n',
        forall|j: int| 0 <= j < k ==> s[j] != '\n',
    ensures
        newline_index(s) == k,
    decreases s.len(),
{
    if s.len() > 0 && s[0] != '\n' {
        assert forall|j: int| 0 <= j < k - 1 implies s.drop_first()[j] != '\n' by {
            assert(s.drop_first()[j] == s[j + 1]);
        }
        lemma_newline_index_is(s.drop_first(), k - 1);
    }
}

proof fn lemma_seq_le_step(a: Seq<char>, b: Seq<char>, i: int)
    requires
        0 <= i < a.len(),
        i < b.len(),
        a[i] == b[i],
    ensures
        seq_le(a.skip(i), b.skip(i)) == seq_le(a.skip(i + 1), b.skip(i + 1)),
{
    assert(a.skip(i).drop_first() =~= a.skip(i + 1));
    assert(b.skip(i).drop_first() =~= b.skip(i + 1));
}

/// Copies the characters of a string into a vector.
pub fn chars_of(s: &str) -> (r: Vec<char>)
    ensures
        r@ == s@,
{
    let mut r: Vec<char> = Vec::new();
    for c in it: s.chars()
        invariant
            r@ == it.seq().take(it.index() as int),
            it.seq() == s@,
    {
        r.push(c);
    }
    r
}

/// Builds a string from its characters (`String`'s `FromIterator<&char>`).
#[verifier::external_body]
pub(crate) fn string_from_chars(chars: &[char]) -> (r: String)
    ensures
        r@ == chars@,
{
    chars.iter().collect()
}

/// `str::to_lowercase`.  On ASCII text the Unicode lowercase mapping is the
/// ASCII one: `A`..`Z` become `a`..`z`, every other character stays.
#[verifier::external_body]
pub(crate) fn to_lowercase(s: &str) -> (r: String)
    ensures
        r@ == lowercase(s@),
        is_ascii_text(s@) ==> r@ == ascii_lowercase(s@),
{
    s.to_lowercase()
}

/// Lexicographic comparison of two character vectors.
pub fn chars_le(a: &Vec<char>, b: &Vec<char>) -> (r: bool)
    ensures
        r == seq_le(a@, b@),
{
    let mut i: usize = 0;
    proof {
        assert(a@.skip(0) =~= a@);
        assert(b@.skip(0) =~= b@);
    }
    while i < a.len() && i < b.len()
        invariant
            i <= a.len(),
            i <= b.len(),
            seq_le(a@, b@) == seq_le(a@.skip(i as int), b@.skip(i as int)),
        decreases a.len() - i,
    {
        let x = a[i];
        let y = b[i];
        if x < y {
            return true;
        }
        if x > y {
            return false;
        }
        proof {
            assert(a@[i as int] == b@[i as int]);
            lemma_seq_le_step(a@, b@, i as int);
        }
        i = i + 1;
    }
    i == a.len()
}

/// Whether `needle` occurs in `hay` at position `i`.
fn occurs_at_exec(hay: &Vec<char>, needle: &Vec<char>, i: usize) -> (r: bool)
    requires
        i + needle.len() <= hay.len(),
    ensures
        r == occurs_at(hay@, needle@, i as int),
{
    let mut j: usize = 0;
    while j < needle.len()
        invariant
            j <= needle.len(),
            i + needle.len() <= hay.len(),
            forall|k: int| 0 <= k < j ==> hay@[i + k] == needle@[k],
        decreases needle.len() - j,
    {
        if hay[i + j] != needle[j] {
            proof {
                assert(hay@.subrange(i as int, i + needle.len())[j as int] != needle@[j as int]);
            }
            return false;
        }
        j = j + 1;
    }
    assert(hay@.subrange(i as int, i + needle.len()) =~= needle@);
    true
}

/// Whether `needle` is a contiguous part of `hay`.
pub fn chars_contain(hay: &Vec<char>, needle: &Vec<char>) -> (r: bool)
    ensures
        r == has_infix(hay@, needle@),
{
    if needle.len() == 0 {
        assert(hay@.subrange(0, 0) =~= needle@);
        assert(occurs_at(hay@, needle@, 0));
        return true;
    }
    if needle.len() > hay.len() {
        return false;
    }
    let last = hay.len() - needle.len();
    let mut i: usize = 0;
    while i <= last
        invariant
            last == hay.len() - needle.len(),
            needle.len() > 0,
            i <= last + 1,
            forall|j: int| 0 <= j < i ==> !occurs_at(hay@, needle@, j),
        decreases last + 1 - i,
    {
        if occurs_at_exec(hay, needle, i) {
            return true;
        }
        i = i + 1;
    }
    false
}

/// `str::contains` with a string pattern.
pub fn str_contains(hay: &str, needle: &str) -> (r: bool)
    ensures
        r == has_infix(hay@, needle@),
{
    let h = chars_of(hay);
    let n = chars_of(needle);
    chars_contain(&h, &n)
}

/// `str::ends_with` with a string pattern.
pub fn str_ends_with(s: &str, suffix: &str) -> (r: bool)
    ensures
        r == has_suffix(s@, suffix@),
{
    let a = chars_of(s);
    let b = chars_of(suffix);
    if b.len() > a.len() {
        return false;
    }
    let off = a.len() - b.len();
    let mut j: usize = 0;
    while j < b.len()
        invariant
            off + b.len() == a.len(),
            a@ == s@,
            b@ == suffix@,
            j <= b.len(),
            forall|k: int| 0 <= k < j ==> a@[off + k] == b@[k],
        decreases b.len() - j,
    {
        if a[off + j] != b[j] {
            proof {
                assert(a@.subrange(off as int, a@.len() as int)[j as int] != b@[j as int]);
            }
            return false;
        }
        j = j + 1;
    }
    assert(a@.subrange(off as int, a@.len() as int) =~= b@);
    true
}

/// The lines of a text (`str::lines`).
pub fn split_lines(s: &str) -> (r: Vec<String>)
    ensures
        r@.map_values(|l: String| l@) == lines_of(s@),
{
    let cs = chars_of(s);
    let mut out: Vec<String> = Vec::new();
    let mut cur: Vec<char> = Vec::new();
    let mut start: usize = 0;
    let mut i: usize = 0;
    proof {
        assert(cs@.skip(0) =~= cs@);
        assert(out@.map_values(|l: String| l@) =~= Seq::<Seq<char>>::empty());
    }
    while i < cs.len()
        invariant
            start <= i <= cs.len(),
            cs@ == s@,
            cur@ == cs@.subrange(start as int, i as int),
            forall|j: int| start <= j < i ==> cs@[j] != '\n',
            out@.map_values(|l: String| l@) + lines_of(cs@.skip(start as int)) == lines_of(cs@),
        decreases cs.len() - i,
    {
        let c = cs[i];
        if c == '\n' {
            let ghost rest = cs@.skip(start as int);
            proof {
                lemma_newline_index_is(rest, i - start);
                assert(rest.take(i - start) =~= cur@);
                assert(rest.skip(i - start + 1) =~= cs@.skip(i + 1));
            }
            let line = if cur.len() > 0 && cur[cur.len() - 1] == '\r' {
                let mut t = cur.clone();
                t.pop();
                proof {
                    assert(t@ =~= cur@.drop_last());
                }
                string_from_chars(t.as_slice())
            } else {
                string_from_chars(cur.as_slice())
            };
            let ghost before = out@.map_values(|l: String| l@);
            out.push(line);
            proof {
                assert(line@ == strip_cr(cur@));
                assert(out@.map_values(|l: String| l@) =~= before.push(strip_cr(cur@)));
                assert(lines_of(rest) == seq![strip_cr(rest.take(i - start))] + lines_of(
                    rest.skip(i - start + 1),
                ));
                assert(before.push(strip_cr(cur@)) + lines_of(cs@.skip(i + 1)) =~= before
                    + lines_of(rest));
            }
            cur = Vec::new();
            start = i + 1;
            proof {
                assert(cur@ =~= cs@.subrange(start as int, (i + 1) as int));
            }
        } else {
            cur.push(c);
            proof {
                assert(cur@ =~= cs@.subrange(start as int, (i + 1) as int));
            }
        }
        i = i + 1;
    }
    if start < cs.len() {
        let ghost rest = cs@.skip(start as int);
        proof {
            lemma_newline_index_is(rest, rest.len() as int);
            assert(rest =~= cur@);
        }
        let ghost before = out@.map_values(|l: String| l@);
        let line = string_from_chars(cur.as_slice());
        out.push(line);
        proof {
            assert(out@.map_values(|l: String| l@) =~= before.push(cur@));
            assert(before + lines_of(rest) =~= before.push(cur@));
        }
    } else {
        proof {
            assert(cs@.skip(start as int) =~= Seq::<char>::empty());
            assert(out@.map_values(|l: String| l@) + Seq::<Seq<char>>::empty() =~= out@.map_values(
                |l: String| l@,
            ));
        }
    }
    out
}

/// Cuts a text to a display width, marking the cut with an ellipsis.
pub fn fit_to_width(text: &str, width: usize) -> (r: String)
    ensures
        r@ == fit_width(text@, width as nat),
{
    let cs = chars_of(text);
    if cs.len() > width {
        let keep: usize = if width == 0 { 0 } else { width - 1 };
        let mut t: Vec<char> = Vec::new();
        let mut j: usize = 0;
        while j < keep
            invariant
                keep < cs.len(),
                j <= keep,
                t@ == cs@.take(j as int),
            decreases keep - j,
        {
            t.push(cs[j]);
            j = j + 1;
            proof {
                assert(t@ =~= cs@.take(j as int));
            }
        }
        t.push('…');
        string_from_chars(t.as_slice())
    } else {
        string_from_chars(cs.as_slice())
    }
}

} // verus!

verus! {

/// `String::push`.
#[verifier::external_body]
pub(crate) fn string_push(s: &mut String, c: char)
    ensures
        final(s)@ == old(s)@.push(c),
{
    s.push(c)
}

/// `String::pop`.
#[verifier::external_body]
pub(crate) fn string_pop(s: &mut String) -> (r: Option<char>)
    ensures
        old(s)@.len() > 0 ==> final(s)@ == old(s)@.drop_last() && r == Some(old(s)@.last()),
        old(s)@.len() == 0 ==> final(s)@ == old(s)@ && r is None,
{
    s.pop()
}

} // verus!
