use vstd::prelude::*;

verus! {

/// A copy of the half-open byte range `[start, end)` of `s`.
pub(crate) fn copy_range(s: &Vec<u8>, start: usize, end: usize) -> (v: Vec<u8>)
    requires
        start <= end <= s@.len(),
    ensures
        v@ == s@.subrange(start as int, end as int),
{
    let mut v: Vec<u8> = Vec::new();
    proof {
        assert(v@ =~= s@.subrange(start as int, start as int));
    }
    let mut i = start;
    while i < end
        invariant
            start <= i <= end <= s@.len(),
            v@ == s@.subrange(start as int, i as int),
        decreases end - i,
    {
        v.push(s[i]);
        proof {
            assert(v@ =~= s@.subrange(start as int, i + 1));
        }
        i += 1;
    }
    v
}

/// Splices `slice` into `s`: the bytes of the half-open range `[start,
/// end)` are removed, and `slice` is inserted at the range's start, so
/// that everything after the range shifts by the difference in length.
pub fn remove_offsets_insert_str(s: &mut Vec<u8>, start: usize, end: usize, slice: &Vec<u8>)
    requires
        start <= end <= old(s)@.len(),
    ensures
        final(s)@ == old(s)@.subrange(0, start as int) + slice@ + old(s)@.subrange(
            end as int,
            old(s)@.len() as int,
        ),
{
    let mut out: Vec<u8> = Vec::new();
    proof {
        assert(out@ =~= s@.subrange(0, 0));
    }
    let mut i: usize = 0;
    while i < start
        invariant
            i <= start <= end <= s@.len(),
            s@ == old(s)@,
            out@ == s@.subrange(0, i as int),
        decreases start - i,
    {
        out.push(s[i]);
        proof {
            assert(out@ =~= s@.subrange(0, i + 1));
        }
        i += 1;
    }
    proof {
        assert(out@ =~= s@.subrange(0, start as int) + slice@.subrange(0, 0));
    }
    let mut k: usize = 0;
    while k < slice.len()
        invariant
            k <= slice@.len(),
            start <= end <= s@.len(),
            s@ == old(s)@,
            out@ == s@.subrange(0, start as int) + slice@.subrange(0, k as int),
        decreases slice@.len() - k,
    {
        out.push(slice[k]);
        proof {
            assert(out@ =~= s@.subrange(0, start as int) + slice@.subrange(0, k + 1));
        }
        k += 1;
    }
    proof {
        assert(slice@.subrange(0, slice@.len() as int) =~= slice@);
        assert(out@ =~= s@.subrange(0, start as int) + slice@ + s@.subrange(
            end as int,
            end as int,
        ));
    }
    let mut j: usize = end;
    while j < s.len()
        invariant
            end <= j <= s@.len(),
            start <= end,
            s@ == old(s)@,
            out@ == s@.subrange(0, start as int) + slice@ + s@.subrange(end as int, j as int),
        decreases s@.len() - j,
    {
        out.push(s[j]);
        proof {
            assert(out@ =~= s@.subrange(0, start as int) + slice@ + s@.subrange(
                end as int,
                j + 1,
            ));
        }
        j += 1;
    }
    *s = out;
}

} // verus!
