//! Regular-expression search patterns.

use vstd::prelude::*;

verus! {

#[verifier::external_type_specification]
#[verifier::external_body]
pub struct ExRegex(regex::Regex);

/// `regex::Regex::new` accepts the pattern (it is valid and within the
/// default size limit).
pub uninterp spec fn regex_compiles(pattern: Seq<char>) -> bool;

/// `regex::Regex::is_match`: the compiled pattern matches somewhere in the
/// haystack.
pub uninterp spec fn regex_matches(pattern: Seq<char>, haystack: Seq<char>) -> bool;

/// A compiled pattern, with the text it was compiled from.
pub struct SearchPattern {
    re: regex::Regex,
    source: String,
}

impl vstd::view::View for SearchPattern {
    type V = Seq<char>;

    closed spec fn view(&self) -> Seq<char> {
        self.source@
    }
}

/// `regex::Regex::new`: `Some` exactly when the pattern compiles.
#[verifier::external_body]
pub(crate) fn compile_pattern(pattern: &str) -> (r: Option<SearchPattern>)
    ensures
        r is Some <==> regex_compiles(pattern@),
        r matches Some(p) ==> p@ == pattern@,
{
    match regex::Regex::new(pattern) {
        Ok(re) => Some(SearchPattern { re, source: pattern.to_string() }),
        Err(_) => None,
    }
}

/// `regex::Regex::is_match`.
#[verifier::external_body]
pub(crate) fn pattern_is_match(p: &SearchPattern, haystack: &str) -> (r: bool)
    ensures
        r == regex_matches(p@, haystack@),
{
    p.re.is_match(haystack)
}

/// The byte ranges of the successive matches of `pattern` in `haystack`, as
/// `regex::Regex::find_iter` reports them.
pub uninterp spec fn regex_match_spans(pattern: Seq<char>, haystack: Seq<char>) -> Seq<(usize, usize)>;

/// `regex::Regex::find_iter`, each match as its start and end byte offsets.
/// The crate documents the matches as successive and non-overlapping, each
/// a range of byte offsets into the haystack.
#[verifier::external_body]
pub(crate) fn pattern_match_spans(p: &SearchPattern, haystack: &str) -> (r: Vec<(usize, usize)>)
    ensures
        r@ == regex_match_spans(p@, haystack@),
        forall|k: int|
            0 <= k < r@.len() ==> #[trigger] r@[k].0 <= r@[k].1 <= vstd::utf8::encode_utf8(
                haystack@,
            ).len(),
        forall|k: int| 0 <= k < r@.len() - 1 ==> #[trigger] r@[k].1 <= r@[k + 1].0,
{
    p.re.find_iter(haystack).map(|m| (m.start(), m.end())).collect()
}

/// The pieces a line of `len` bytes is printed in when a search matches it
/// at `spans`, going on from byte `last_end`: the text before each match
/// plain, each match highlighted, then the rest of the line plain; as byte
/// ranges with whether they are highlighted.
pub open spec fn segments_from(spans: Seq<(usize, usize)>, last_end: usize, len: usize) -> Seq<
    (usize, usize, bool),
>
    decreases spans.len(),
{
    if spans.len() == 0 {
        if last_end < len {
            seq![(last_end, len, false)]
        } else {
            Seq::empty()
        }
    } else {
        let (s, e) = spans[0];
        (if s > last_end {
            seq![(last_end, s, false)]
        } else {
            Seq::empty()
        }) + seq![(s, e, true)] + segments_from(spans.drop_first(), e, len)
    }
}

/// The pieces of a line of `len` bytes for the matches at `spans`.
fn line_segments(spans: &Vec<(usize, usize)>, len: usize) -> (r: Vec<(usize, usize, bool)>)
    ensures
        r@ == segments_from(spans@, 0, len),
{
    let mut out: Vec<(usize, usize, bool)> = Vec::new();
    let mut last_end: usize = 0;
    let mut i: usize = 0;
    proof {
        assert(spans@.skip(0) =~= spans@);
        assert(out@ + segments_from(spans@.skip(0), last_end, len) =~= segments_from(spans@, 0, len));
    }
    while i < spans.len()
        invariant
            i <= spans@.len(),
            out@ + segments_from(spans@.skip(i as int), last_end, len) == segments_from(spans@, 0, len),
        decreases spans@.len() - i,
    {
        let (s, e) = spans[i];
        let ghost rest = spans@.skip(i as int);
        proof {
            assert(rest[0] == (s, e));
            assert(rest.drop_first() =~= spans@.skip(i + 1));
        }
        let ghost before = out@;
        if s > last_end {
            out.push((last_end, s, false));
        }
        out.push((s, e, true));
        proof {
            let head = (if s > last_end {
                seq![(last_end, s, false)]
            } else {
                Seq::<(usize, usize, bool)>::empty()
            }) + seq![(s, e, true)];
            assert(out@ =~= before + head);
            assert(segments_from(rest, last_end, len) == head + segments_from(spans@.skip(i + 1), e, len));
            assert(before + (head + segments_from(spans@.skip(i + 1), e, len)) =~= out@ + segments_from(
                spans@.skip(i + 1),
                e,
                len,
            ));
        }
        last_end = e;
        i = i + 1;
    }
    let ghost before = out@;
    if last_end < len {
        out.push((last_end, len, false));
    }
    proof {
        assert(spans@.skip(i as int) =~= Seq::<(usize, usize)>::empty());
        assert(out@ =~= before + segments_from(spans@.skip(i as int), last_end, len));
    }
    out
}

/// How each of `lines` is printed while `query` is searched: `None` when
/// nothing is searched (an empty or invalid pattern), otherwise, per line,
/// its pieces around the pattern's matches.
pub fn search_segments(query: &str, lines: &Vec<String>) -> (r: Option<Vec<Vec<(usize, usize, bool)>>>)
    ensures
        r is None <==> (query@.len() == 0 || !regex_compiles(query@)),
        r matches Some(v) ==> v@.len() == lines@.len() && forall|k: int|
            0 <= k < lines@.len() ==> #[trigger] v@[k]@ == segments_from(
                regex_match_spans(query@, lines@[k]@),
                0,
                vstd::utf8::encode_utf8(lines@[k]@).len() as usize,
            ),
{
    if query.is_empty() {
        return None;
    }
    let pat = match compile_pattern(query) {
        Some(p) => p,
        None => return None,
    };
    let mut out: Vec<Vec<(usize, usize, bool)>> = Vec::new();
    let mut k: usize = 0;
    while k < lines.len()
        invariant
            k <= lines@.len(),
            pat@ == query@,
            out@.len() == k,
            forall|j: int|
                0 <= j < k ==> #[trigger] out@[j]@ == segments_from(
                    regex_match_spans(query@, lines@[j]@),
                    0,
                    vstd::utf8::encode_utf8(lines@[j]@).len() as usize,
                ),
        decreases lines@.len() - k,
    {
        let line = lines[k].as_str();
        let spans = pattern_match_spans(&pat, line);
        out.push(line_segments(&spans, line.len()));
        k = k + 1;
    }
    Some(out)
}

} // verus!
