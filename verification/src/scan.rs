use vstd::prelude::*;

use crate::errors::ResolveError;
use crate::splice::copy_range;

verus! {

/// The opening token of a directive, as bytes.
pub open spec fn marker() -> Seq<u8> {
    seq![
        '<' as u8,
        'i' as u8,
        'n' as u8,
        'c' as u8,
        'l' as u8,
        'u' as u8,
        'd' as u8,
        'e' as u8,
    ]
}

/// A double quote, the delimiter of a directive's source path.
pub open spec fn quote_pat() -> Seq<u8> {
    seq!['"' as u8]
}

/// The closing `>` of a directive.
pub open spec fn close_pat() -> Seq<u8> {
    seq!['>' as u8]
}

/// `pat` occurs in `s` at position `i`.
pub open spec fn matches_at(s: Seq<u8>, pat: Seq<u8>, i: int) -> bool {
    &&& 0 <= i
    &&& i + pat.len() <= s.len()
    &&& forall|k: int| 0 <= k < pat.len() ==> s[i + k] == pat[k]
}

/// Position of the first occurrence of `pat` in `s` at or after `from`,
/// or -1 when there is none.
pub open spec fn spec_find(s: Seq<u8>, pat: Seq<u8>, from: int) -> int
    decreases s.len() - from,
{
    if from + pat.len() > s.len() {
        -1
    } else if matches_at(s, pat, from) {
        from
    } else {
        spec_find(s, pat, from + 1)
    }
}

/// The buffer still holds a directive opening token somewhere.
pub open spec fn has_marker(s: Seq<u8>) -> bool {
    spec_find(s, marker(), 0) >= 0
}

/// A successful find is the first occurrence at or after `from`.
pub proof fn lemma_find_found(s: Seq<u8>, pat: Seq<u8>, from: int)
    requires
        0 <= from,
        spec_find(s, pat, from) >= 0,
    ensures
        from <= spec_find(s, pat, from),
        matches_at(s, pat, spec_find(s, pat, from)),
        forall|k: int| from <= k < spec_find(s, pat, from) ==> !matches_at(s, pat, k),
    decreases s.len() - from,
{
    if from + pat.len() > s.len() {
    } else if matches_at(s, pat, from) {
    } else {
        lemma_find_found(s, pat, from + 1);
    }
}

/// `pat` occurs in `s` at `i`, byte for byte.
fn is_match_at(s: &Vec<u8>, pat: &Vec<u8>, i: usize) -> (r: bool)
    requires
        i + pat@.len() <= s@.len(),
    ensures
        r == matches_at(s@, pat@, i as int),
{
    let n = s.len();
    let mut k: usize = 0;
    while k < pat.len()
        invariant
            n == s@.len(),
            i + pat@.len() <= s@.len(),
            k <= pat@.len(),
            forall|t: int| 0 <= t < k ==> s@[i + t] == pat@[t],
        decreases pat@.len() - k,
    {
        if s[i + k] != pat[k] {
            assert(!matches_at(s@, pat@, i as int));
            return false;
        }
        k += 1;
    }
    true
}

/// First occurrence of `pat` in `s` at or after `from`, as an index.
pub(crate) fn find_pattern(s: &Vec<u8>, pat: &Vec<u8>, from: usize) -> (r: Option<usize>)
    requires
        1 <= pat@.len(),
    ensures
        r matches Some(i) ==> i as int == spec_find(s@, pat@, from as int),
        r is None ==> spec_find(s@, pat@, from as int) == -1,
{
    if s.len() < pat.len() || from > s.len() - pat.len() {
        return None;
    }
    let mut i = from;
    while i <= s.len() - pat.len()
        invariant
            from <= i,
            1 <= pat@.len() <= s@.len(),
            i <= s@.len(),
            spec_find(s@, pat@, from as int) == spec_find(s@, pat@, i as int),
        decreases s@.len() - i,
    {
        if is_match_at(s, pat, i) {
            return Some(i);
        }
        assert(spec_find(s@, pat@, i as int) == spec_find(s@, pat@, i + 1));
        i += 1;
    }
    None
}

/// The directive opening token, as an executable value.
pub(crate) fn marker_bytes() -> (v: Vec<u8>)
    ensures
        v@ == marker(),
{
    let mut v: Vec<u8> = Vec::new();
    v.push('<' as u8);
    v.push('i' as u8);
    v.push('n' as u8);
    v.push('c' as u8);
    v.push('l' as u8);
    v.push('u' as u8);
    v.push('d' as u8);
    v.push('e' as u8);
    proof {
        assert(v@ =~= marker());
    }
    v
}

/// A one-byte pattern, as an executable value.
fn byte_pat(b: u8) -> (v: Vec<u8>)
    ensures
        v@ == seq![b],
{
    let mut v: Vec<u8> = Vec::new();
    v.push(b);
    proof {
        assert(v@ =~= seq![b]);
    }
    v
}

/// Offsets of the first directive of `s`: the position of its opening
/// token and the position of the first `>` at or after that token.
/// `None` when `s` holds no opening token, or an opening token with no
/// `>` after it.
pub fn find_include_offsets(s: &Vec<u8>) -> (r: Option<(usize, usize)>)
    ensures
        ({
            let i = spec_find(s@, marker(), 0);
            let j = spec_find(s@, close_pat(), i);
            if i < 0 {
                r is None
            } else if j < 0 {
                r is None
            } else {
                r == Some((i as usize, j as usize))
            }
        }),
{
    let m = marker_bytes();
    match find_pattern(s, &m, 0) {
        None => None,
        Some(i) => {
            let c = byte_pat('>' as u8);
            match find_pattern(s, &c, i) {
                None => None,
                Some(j) => Some((i, j)),
            }
        },
    }
}

/// Source path inside a directive span: the bytes strictly between the
/// first `"` of the span and the next `"` after it. `None` when the
/// span holds fewer than two `"` bytes.
pub fn find_include_src(s: &Vec<u8>) -> (r: Option<Vec<u8>>)
    ensures
        ({
            let q1 = spec_find(s@, quote_pat(), 0);
            let q2 = spec_find(s@, quote_pat(), q1 + 1);
            if q1 < 0 {
                r is None
            } else if q2 < 0 {
                r is None
            } else {
                r matches Some(v) && v@ == s@.subrange(q1 + 1, q2)
            }
        }),
{
    let q = byte_pat('"' as u8);
    match find_pattern(s, &q, 0) {
        None => None,
        Some(q1) => {
            let n = s.len();
            proof {
                lemma_find_found(s@, quote_pat(), 0);
                assert(q1 + 1 <= n);
            }
            match find_pattern(s, &q, q1 + 1) {
                None => None,
                Some(q2) => {
                    proof {
                        lemma_find_found(s@, quote_pat(), q1 + 1);
                    }
                    Some(copy_range(s, q1 + 1, q2))
                },
            }
        },
    }
}

/// What a scan of the buffer for its first directive yields.
pub enum ScanOutcome {
    /// No opening token anywhere in the buffer.
    NoneFound,
    /// An opening token with no `>` after it.
    Unterminated,
    /// A directive span with fewer than two `"` bytes in it.
    NoQuotes,
    /// A full directive: its half-open span `[start, end)` in the
    /// buffer, and the source path between the first two `"` bytes of
    /// the span.
    Found { start: int, end: int, src: Seq<u8> },
}

/// The first directive of `s`, as the scan sees it.
pub open spec fn scan_spec(s: Seq<u8>) -> ScanOutcome {
    let i = spec_find(s, marker(), 0);
    if i < 0 {
        ScanOutcome::NoneFound
    } else {
        let j = spec_find(s, close_pat(), i);
        if j < 0 {
            ScanOutcome::Unterminated
        } else {
            let span = s.subrange(i, j + 1);
            let q1 = spec_find(span, quote_pat(), 0);
            let q2 = spec_find(span, quote_pat(), q1 + 1);
            if q1 < 0 || q2 < 0 {
                ScanOutcome::NoQuotes
            } else {
                ScanOutcome::Found { start: i, end: j + 1, src: span.subrange(q1 + 1, q2) }
            }
        }
    }
}

/// A directive found in the buffer: the half-open byte span `[start,
/// end)` of its full text, and the source path extracted from it.
pub struct Directive {
    pub start: usize,
    pub end: usize,
    pub src: Vec<u8>,
}

/// Scans `s` for its first directive. `Ok(None)` when the buffer holds
/// no opening token: resolution is then complete. A span that cannot be
/// read as a directive is an error, and the whole resolution stops on
/// it.
pub fn next_directive(s: &Vec<u8>) -> (r: Result<Option<Directive>, ResolveError>)
    ensures
        scan_spec(s@) is NoneFound ==> r == Ok::<Option<Directive>, ResolveError>(None),
        scan_spec(s@) is Unterminated ==> r == Err::<Option<Directive>, ResolveError>(
            ResolveError::MalformedDirective,
        ),
        scan_spec(s@) is NoQuotes ==> r == Err::<Option<Directive>, ResolveError>(
            ResolveError::MissingSource,
        ),
        scan_spec(s@) matches ScanOutcome::Found { start, end, src } ==> (r matches Ok(d) && d
            matches Some(d) && d.start as int == start && d.end as int == end && d.src@ == src),
{
    let m = marker_bytes();
    match find_pattern(s, &m, 0) {
        None => Ok(None),
        Some(i) => {
            proof {
                lemma_find_found(s@, marker(), 0);
            }
            let c = byte_pat('>' as u8);
            match find_pattern(s, &c, i) {
                None => Err(ResolveError::MalformedDirective),
                Some(j) => {
                    let n = s.len();
                    proof {
                        lemma_find_found(s@, close_pat(), i as int);
                        assert(j + 1 <= n);
                    }
                    let span = copy_range(s, i, j + 1);
                    match find_include_src(&span) {
                        None => Err(ResolveError::MissingSource),
                        Some(src) => Ok(Some(Directive { start: i, end: j + 1, src })),
                    }
                },
            }
        },
    }
}

} // verus!
