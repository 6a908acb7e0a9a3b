use vstd::prelude::*;

verus! {

/// A decimal digit as the id rule understands it: an ASCII digit character.
pub open spec fn spec_is_digit(c: char) -> bool {
    '0' <= c && c <= '9'
}

/// The numeric value of one digit character.
pub open spec fn spec_digit_val(c: char) -> int {
    c as int - '0' as int
}

/// The first position at or after `i` where a run of at least three digit
/// characters starts, if any.  Because the search stops at the first such
/// position, the character before a found position is never a digit (it would
/// have been found earlier), so the run found is the first maximal one.
pub open spec fn first_run_start_from(s: Seq<char>, i: int) -> Option<int>
    decreases s.len() - i,
{
    if i + 3 > s.len() {
        None
    } else if spec_is_digit(s[i]) && spec_is_digit(s[i + 1]) && spec_is_digit(s[i + 2]) {
        Some(i)
    } else {
        first_run_start_from(s, i + 1)
    }
}

/// One past the last digit of the digit run that starts at `i`.
pub open spec fn run_end_from(s: Seq<char>, i: int) -> int
    decreases s.len() - i,
{
    if 0 <= i && i < s.len() && spec_is_digit(s[i]) {
        run_end_from(s, i + 1)
    } else {
        i
    }
}

/// The first maximal run of three or more consecutive digit characters in
/// `s`, as a sequence of digit characters.
pub open spec fn spec_id_run(s: Seq<char>) -> Option<Seq<char>> {
    match first_run_start_from(s, 0) {
        Some(i) => Some(s.subrange(i, run_end_from(s, i))),
        None => None,
    }
}

/// The value of a sequence of digit characters read as a decimal numeral.
pub open spec fn spec_digits_value(ds: Seq<char>) -> int
    decreases ds.len(),
{
    if ds.len() == 0 {
        0
    } else {
        spec_digits_value(ds.drop_last()) * 10 + spec_digit_val(ds.last())
    }
}

/// The proposal id embedded in a name: the value of the first maximal run of
/// three or more consecutive decimal digits, if the name has one.
pub open spec fn spec_extract_id(s: Seq<char>) -> Option<int> {
    match spec_id_run(s) {
        Some(ds) => Some(spec_digits_value(ds)),
        None => None,
    }
}

/// The embedded id restricted to values a `u64` can carry with room for a
/// successor: a run whose value does not fit below `u64::MAX` contributes
/// nothing, exactly like a name without a run.
pub open spec fn spec_bounded_id(s: Seq<char>) -> Option<int> {
    match spec_extract_id(s) {
        Some(v) => if v < u64::MAX { Some(v) } else { None },
        None => None,
    }
}

pub fn is_digit_char(c: char) -> (r: bool)
    ensures
        r == spec_is_digit(c),
{
    '0' <= c && c <= '9'
}

/// Every sequence of digit characters has a non-negative value.
pub proof fn lemma_digits_value_nonneg(ds: Seq<char>)
    requires
        forall|j: int| 0 <= j < ds.len() ==> spec_is_digit(#[trigger] ds[j]),
    ensures
        spec_digits_value(ds) >= 0,
    decreases ds.len(),
{
    if ds.len() > 0 {
        lemma_digits_value_nonneg(ds.drop_last());
    }
}

/// Reading more digits never decreases the value: the value of a prefix of a
/// digit run is at most the value of the whole run.
pub proof fn lemma_digits_value_prefix(ds: Seq<char>, k: int)
    requires
        forall|j: int| 0 <= j < ds.len() ==> spec_is_digit(#[trigger] ds[j]),
        0 <= k <= ds.len(),
    ensures
        spec_digits_value(ds.take(k)) <= spec_digits_value(ds),
    decreases ds.len(),
{
    if k == ds.len() {
        assert(ds.take(k) =~= ds);
    } else {
        let prefix = ds.drop_last();
        assert(ds.take(k) =~= prefix.take(k));
        lemma_digits_value_prefix(prefix, k);
        lemma_digits_value_nonneg(prefix);
    }
}

/// Finds the first maximal run of three or more digit characters: returns its
/// start and its end (one past the last digit), or `None` if the string has
/// no such run.
pub fn find_digit_run(s: &str) -> (r: Option<(usize, usize)>)
    ensures
        r is None ==> first_run_start_from(s@, 0) is None,
        r matches Some(se) ==> {
            &&& first_run_start_from(s@, 0) == Some(se.0 as int)
            &&& run_end_from(s@, se.0 as int) == se.1 as int
            &&& se.0 + 3 <= se.1 <= s@.len()
            &&& forall|j: int| se.0 <= j < se.1 ==> spec_is_digit(#[trigger] s@[j])
        },
{
    let n: usize = s.unicode_len();
    if n < 3 {
        return None;
    }
    let mut i: usize = 0;
    while i <= n - 3
        invariant
            3 <= n == s@.len(),
            0 <= i <= n - 2,
            first_run_start_from(s@, 0) == first_run_start_from(s@, i as int),
        decreases n - i,
    {
        let c0 = s.get_char(i);
        let c1 = s.get_char(i + 1);
        let c2 = s.get_char(i + 2);
        if is_digit_char(c0) && is_digit_char(c1) && is_digit_char(c2) {
            proof {
                assert(first_run_start_from(s@, i as int) == Some(i as int));
                assert(run_end_from(s@, i as int) == run_end_from(s@, i as int + 1));
                assert(run_end_from(s@, i as int + 1) == run_end_from(s@, i as int + 2));
                assert(run_end_from(s@, i as int + 2) == run_end_from(s@, i as int + 3));
            }
            let mut e: usize = i + 3;
            while e < n
                invariant
                    i + 3 <= e <= n,
                    n == s@.len(),
                    run_end_from(s@, i as int) == run_end_from(s@, e as int),
                    forall|j: int| i <= j < e ==> spec_is_digit(#[trigger] s@[j]),
                ensures
                    i + 3 <= e <= n,
                    run_end_from(s@, i as int) == e as int,
                    forall|j: int| i <= j < e ==> spec_is_digit(#[trigger] s@[j]),
                decreases n - e,
            {
                let c = s.get_char(e);
                if is_digit_char(c) {
                    proof {
                        assert(run_end_from(s@, e as int) == run_end_from(s@, e as int + 1));
                    }
                    e += 1;
                } else {
                    proof {
                        assert(run_end_from(s@, e as int) == e as int);
                    }
                    break;
                }
            }
            return Some((i, e));
        }
        proof {
            assert(first_run_start_from(s@, i as int) == first_run_start_from(s@, i as int + 1));
        }
        i += 1;
    }
    proof {
        assert(first_run_start_from(s@, i as int) is None);
    }
    None
}

/// Extracts the proposal id embedded in a name, if any: the value of the
/// first maximal run of three or more consecutive decimal digits.  A run
/// whose value does not fit below `u64::MAX` yields `None`, exactly like a
/// name without a run.
pub fn extract_rfc_id(s: &str) -> (r: Option<u64>)
    ensures
        r is Some <==> spec_bounded_id(s@) is Some,
        r matches Some(v) ==> spec_bounded_id(s@) == Some(v as int),
{
    match find_digit_run(s) {
        None => None,
        Some((start, end)) => {
            let ghost ds = s@.subrange(start as int, end as int);
            proof {
                assert(spec_id_run(s@) == Some(ds));
                assert(forall|j: int| 0 <= j < ds.len() ==> spec_is_digit(#[trigger] ds[j]));
            }
            let mut v: u64 = 0;
            let mut j: usize = start;
            while j < end
                invariant
                    start <= j <= end <= s@.len(),
                    start + 3 <= end,
                    ds == s@.subrange(start as int, end as int),
                    spec_id_run(s@) == Some(ds),
                    forall|k: int| start <= k < end ==> spec_is_digit(#[trigger] s@[k]),
                    forall|k: int| 0 <= k < ds.len() ==> spec_is_digit(#[trigger] ds[k]),
                    v as int == spec_digits_value(s@.subrange(start as int, j as int)),
                decreases end - j,
            {
                let c = s.get_char(j);
                let code: u32 = c as u32;
                assert('0' as int == 48 && '9' as int == 57);
                let d: u64 = (code - 48) as u64;
                proof {
                    assert(d as int == spec_digit_val(s@[j as int]));
                    assert(s@.subrange(start as int, j as int + 1).drop_last() =~= s@.subrange(
                        start as int,
                        j as int,
                    ));
                    assert(s@.subrange(start as int, j as int + 1).last() == s@[j as int]);
                }
                if v > (u64::MAX - d) / 10 {
                    proof {
                        // The value of the digits read so far, extended by this
                        // digit, already exceeds u64::MAX; the whole run can
                        // only be larger.
                        assert(spec_digits_value(s@.subrange(start as int, j as int + 1)) == v
                            as int * 10 + d as int);
                        assert(v as int * 10 + d as int > u64::MAX) by {
                            assert(v as int >= (u64::MAX - d) as int / 10 + 1);
                        }
                        assert(ds.take(j as int + 1 - start) =~= s@.subrange(
                            start as int,
                            j as int + 1,
                        ));
                        lemma_digits_value_prefix(ds, j as int + 1 - start);
                        assert(spec_digits_value(ds) > u64::MAX);
                    }
                    return None;
                }
                v = v * 10 + d;
                j += 1;
            }
            proof {
                assert(s@.subrange(start as int, end as int) =~= ds);
                assert(v as int == spec_digits_value(ds));
            }
            if v == u64::MAX {
                return None;
            }
            Some(v)
        },
    }
}

} // verus!
