use vstd::prelude::*;

verus! {

/// Compares the character range `[from, to)` of `s` with the whole of `t`.
pub(crate) fn substr_eq(s: &str, from: usize, to: usize, t: &str) -> (r: bool)
    requires
        from <= to <= s@.len(),
    ensures
        r == (s@.subrange(from as int, to as int) == t@),
{
    let m: usize = t.unicode_len();
    if to - from != m {
        return false;
    }
    let mut j: usize = 0;
    while j < m
        invariant
            0 <= j <= m == t@.len(),
            from <= to <= s@.len(),
            to - from == m,
            forall|i: int| 0 <= i < j ==> s@[from + i] == t@[i],
        decreases m - j,
    {
        let a = s.get_char(from + j);
        let b = t.get_char(j);
        if a != b {
            proof {
                assert(s@.subrange(from as int, to as int)[j as int] != t@[j as int]);
            }
            return false;
        }
        j += 1;
    }
    proof {
        assert(s@.subrange(from as int, to as int) =~= t@);
    }
    true
}

/// Compares two strings character by character.
pub(crate) fn str_eq(a: &str, b: &str) -> (r: bool)
    ensures
        r == (a@ == b@),
{
    let n: usize = a.unicode_len();
    proof {
        assert(a@.subrange(0, n as int) =~= a@);
    }
    substr_eq(a, 0, n, b)
}

} // verus!
