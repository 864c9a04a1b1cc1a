use vstd::prelude::*;

use crate::errors::ResolveError;
use crate::scan::has_marker;
use crate::scan::lemma_find_found;
use crate::scan::marker;
use crate::scan::next_directive;
use crate::scan::scan_spec;
use crate::scan::spec_find;
use crate::scan::close_pat;
use crate::scan::matches_at;
use crate::scan::ScanOutcome;
use crate::splice::remove_offsets_insert_str;
use crate::store::lookup;
use crate::store::FileStore;

verus! {

/// What one resolution step does to the buffer.
pub enum StepOutcome {
    /// No directive is left: the buffer is the result.
    Done,
    /// The step fails, and the whole resolution with it.
    Fail(ResolveError),
    /// The first directive's span is replaced by looked-up contents.
    Next(Seq<u8>),
}

/// One step of resolution on buffer `s` against the documents in
/// `files`: find the first directive, look its source path up, and
/// replace the directive's span with the contents found.
pub open spec fn step_of(files: Seq<(Seq<u8>, Seq<u8>)>, s: Seq<u8>) -> StepOutcome {
    match scan_spec(s) {
        ScanOutcome::NoneFound => StepOutcome::Done,
        ScanOutcome::Unterminated => StepOutcome::Fail(ResolveError::MalformedDirective),
        ScanOutcome::NoQuotes => StepOutcome::Fail(ResolveError::MissingSource),
        ScanOutcome::Found { start, end, src } => match lookup(files, src) {
            Option::None => StepOutcome::Fail(ResolveError::PathResolution),
            Option::Some(c) => StepOutcome::Next(
                s.subrange(0, start) + c + s.subrange(end, s.len() as int),
            ),
        },
    }
}

/// The buffer after `n` resolution steps from `s`. A buffer whose step
/// is no replacement stays as it is.
pub open spec fn iterate(files: Seq<(Seq<u8>, Seq<u8>)>, s: Seq<u8>, n: nat) -> Seq<u8>
    decreases n,
{
    if n == 0 {
        s
    } else {
        let prev = iterate(files, s, (n - 1) as nat);
        match step_of(files, prev) {
            StepOutcome::Next(t) => t,
            _ => prev,
        }
    }
}

/// A buffer with no opening token left never moves again: every later
/// step keeps it as it is. Resolving an already fully resolved document
/// once more is a no-op.
pub proof fn lemma_resolved_is_fixed_point(files: Seq<(Seq<u8>, Seq<u8>)>, s: Seq<u8>, n: nat)
    requires
        !has_marker(s),
    ensures
        iterate(files, s, n) == s,
    decreases n,
{
    if n > 0 {
        lemma_resolved_is_fixed_point(files, s, (n - 1) as nat);
        assert(scan_spec(s) is NoneFound);
    }
}

/// The scan acts on the first directive of the buffer: the span it
/// yields starts at the first position where the opening token occurs,
/// and no opening token stands anywhere before it.
pub proof fn lemma_scan_finds_first(s: Seq<u8>)
    requires
        has_marker(s),
    ensures
        matches_at(s, marker(), spec_find(s, marker(), 0)),
        forall|k: int| 0 <= k < spec_find(s, marker(), 0) ==> !matches_at(s, marker(), k),
        scan_spec(s) matches ScanOutcome::Found { start, .. } ==> start == spec_find(
            s,
            marker(),
            0,
        ),
{
    lemma_find_found(s, marker(), 0);
}

/// A directive span found by the scan lies inside the buffer.
pub proof fn lemma_scan_found_bounds(s: Seq<u8>)
    ensures
        scan_spec(s) matches ScanOutcome::Found { start, end, .. } ==> 0 <= start < end
            <= s.len(),
{
    if has_marker(s) {
        lemma_find_found(s, marker(), 0);
        let i = spec_find(s, marker(), 0);
        if spec_find(s, close_pat(), i) >= 0 {
            lemma_find_found(s, close_pat(), i);
        }
    }
}

/// Resolves `root` against `files`: repeatedly finds the first
/// directive of the buffer, replaces its span with the contents filed
/// under its source path, and stops once no directive is left. The
/// buffer handed back is reached from `root` by those steps and holds
/// no directive; a document that holds none to begin with comes back
/// unchanged. On any failure the whole resolution fails, and no
/// partial buffer is handed back.
///
/// A document that transitively pulls itself in would grow the buffer
/// forever; as a guard, at most `limit` replacements are made, and a
/// resolution that would go past that fails with `ExpansionLimit`.
pub fn resolve(root: Vec<u8>, files: &FileStore, limit: usize) -> (r: Result<
    Vec<u8>,
    ResolveError,
>)
    ensures
        r matches Ok(out) ==> !has_marker(out@) && exists|n: nat|
            iterate(files@, root@, n) == out@,
        r matches Err(e) ==> (e is ExpansionLimit ==> step_of(
            files@,
            iterate(files@, root@, limit as nat),
        ) is Next),
        r matches Err(e) ==> (!(e is ExpansionLimit) ==> exists|n: nat|
            step_of(files@, iterate(files@, root@, n)) == StepOutcome::Fail(e)),
        !has_marker(root@) ==> (r matches Ok(out) && out@ == root@),
{
    let ghost r0 = root@;
    let mut buf = root;
    let mut steps: usize = 0;
    loop
        invariant
            steps <= limit,
            iterate(files@, r0, steps as nat) == buf@,
            r0 == root@,
            !has_marker(r0) ==> buf@ == r0,
        decreases limit - steps,
    {
        match next_directive(&buf) {
            Err(e) => {
                proof {
                    assert(step_of(files@, buf@) == StepOutcome::Fail(e));
                    if !has_marker(r0) {
                        assert(scan_spec(buf@) is NoneFound);
                        assert(false);
                    }
                }
                return Err(e);
            },
            Ok(None) => {
                proof {
                    assert(scan_spec(buf@) is NoneFound);
                    if !has_marker(r0) {
                        lemma_resolved_is_fixed_point(files@, r0, steps as nat);
                    }
                }
                return Ok(buf);
            },
            Ok(Some(d)) => {
                proof {
                    lemma_scan_found_bounds(buf@);
                    if !has_marker(r0) {
                        assert(scan_spec(buf@) is NoneFound);
                        assert(false);
                    }
                }
                match files.get(&d.src) {
                    None => {
                        proof {
                            assert(step_of(files@, buf@) == StepOutcome::Fail(
                                ResolveError::PathResolution,
                            ));
                        }
                        return Err(ResolveError::PathResolution);
                    },
                    Some(c) => {
                        if steps == limit {
                            proof {
                                assert(step_of(files@, buf@) is Next);
                            }
                            return Err(ResolveError::ExpansionLimit);
                        }
                        let ghost pre = buf@;
                        remove_offsets_insert_str(&mut buf, d.start, d.end, c);
                        steps = steps + 1;
                        proof {
                            assert(step_of(files@, pre) == StepOutcome::Next(buf@));
                            assert(iterate(files@, r0, steps as nat) == buf@);
                        }
                    },
                }
            },
        }
    }
}

} // verus!
