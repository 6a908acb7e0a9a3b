use vstd::prelude::*;

use crate::ids::{extract_rfc_id, spec_bounded_id};

verus! {

/// The views of a sequence of strings.
pub open spec fn names_view(names: Seq<String>) -> Seq<Seq<char>> {
    names.map_values(|s: String| s@)
}

/// The larger of two numbers.
pub open spec fn spec_max2(a: int, b: int) -> int {
    if a > b {
        a
    } else {
        b
    }
}

/// The largest id embedded in any of the names; 0 where no name carries one,
/// so that the id 0 itself never lowers the result.
pub open spec fn spec_max_id(names: Seq<Seq<char>>) -> int
    decreases names.len(),
{
    if names.len() == 0 {
        0
    } else {
        let rest = spec_max_id(names.drop_last());
        match spec_bounded_id(names.last()) {
            Some(v) => spec_max2(v, rest),
            None => rest,
        }
    }
}

/// The next proposal number: one past the largest id embedded in any branch
/// name or file path.  Names without an embedded id contribute nothing, and
/// where no name carries an id at all the first number is 1.
pub open spec fn spec_next_rfc_number(branches: Seq<Seq<char>>, files: Seq<Seq<char>>) -> int {
    spec_max2(spec_max_id(branches), spec_max_id(files)) + 1
}

/// Find the next proposal number from the local branch names and the
/// discovered proposal file paths.  The result is a pure function of the two
/// name lists: the id embedded in each name is extracted by one shared rule
/// for both sources, the largest is taken, and the result is one past it.
pub fn next_rfc_number(git_branches: &Vec<String>, rfcs_in_repo: &Vec<String>) -> (r: u64)
    ensures
        r as int == spec_next_rfc_number(names_view(git_branches@), names_view(rfcs_in_repo@)),
        r >= 1,
{
    let mut m: u64 = 0;
    let mut j: usize = 0;
    while j < git_branches.len()
        invariant
            0 <= j <= git_branches@.len(),
            m < u64::MAX,
            m as int == spec_max_id(names_view(git_branches@).take(j as int)),
        decreases git_branches@.len() - j,
    {
        match extract_rfc_id(git_branches[j].as_str()) {
            Some(v) => {
                if v > m {
                    m = v;
                }
            },
            None => {},
        }
        proof {
            assert(names_view(git_branches@).take(j as int + 1).drop_last() =~= names_view(
                git_branches@,
            ).take(j as int));
            assert(names_view(git_branches@).take(j as int + 1).last() == git_branches@[j as int]@);
        }
        j += 1;
    }
    proof {
        assert(names_view(git_branches@).take(git_branches@.len() as int) =~= names_view(
            git_branches@,
        ));
    }
    let ghost branches_max = spec_max_id(names_view(git_branches@));
    let mut k: usize = 0;
    while k < rfcs_in_repo.len()
        invariant
            0 <= k <= rfcs_in_repo@.len(),
            m < u64::MAX,
            branches_max == spec_max_id(names_view(git_branches@)),
            m as int == spec_max2(branches_max, spec_max_id(names_view(rfcs_in_repo@).take(k as int))),
        decreases rfcs_in_repo@.len() - k,
    {
        match extract_rfc_id(rfcs_in_repo[k].as_str()) {
            Some(v) => {
                if v > m {
                    m = v;
                }
            },
            None => {},
        }
        proof {
            assert(names_view(rfcs_in_repo@).take(k as int + 1).drop_last() =~= names_view(
                rfcs_in_repo@,
            ).take(k as int));
            assert(names_view(rfcs_in_repo@).take(k as int + 1).last() == rfcs_in_repo@[k as int]@);
        }
        k += 1;
    }
    proof {
        assert(names_view(rfcs_in_repo@).take(rfcs_in_repo@.len() as int) =~= names_view(
            rfcs_in_repo@,
        ));
    }
    m + 1
}

/// No member of a name list carries an id above the list's maximum.
proof fn lemma_max_id_ge(names: Seq<Seq<char>>, name: Seq<char>)
    requires
        names.contains(name),
    ensures
        spec_bounded_id(name) matches Some(v) ==> v <= spec_max_id(names),
    decreases names.len(),
{
    if names.last() == name {
    } else {
        let i = choose|i: int| 0 <= i < names.len() && names[i] == name;
        assert(names.drop_last()[i] == name);
        assert(names.drop_last().contains(name));
        lemma_max_id_ge(names.drop_last(), name);
    }
}

/// The central collision-freedom invariant of numbering: the allocated
/// number is strictly greater than every id embedded in any of the file
/// paths and branch names it was computed from.
pub proof fn lemma_next_number_exceeds_all(
    branches: Seq<Seq<char>>,
    files: Seq<Seq<char>>,
    name: Seq<char>,
)
    requires
        branches.contains(name) || files.contains(name),
    ensures
        spec_bounded_id(name) matches Some(v) ==> v < spec_next_rfc_number(branches, files),
{
    if branches.contains(name) {
        lemma_max_id_ge(branches, name);
    } else {
        lemma_max_id_ge(files, name);
    }
}

/// The allocator reads its two sources with one shared rule: swapping the
/// branch names and the file paths leaves the allocated number unchanged.
pub proof fn lemma_next_number_source_symmetric(branches: Seq<Seq<char>>, files: Seq<Seq<char>>)
    ensures
        spec_next_rfc_number(branches, files) == spec_next_rfc_number(files, branches),
{
}

/// A name occupies the same id whether it stands among the branch names or
/// among the file paths: moving one name from one source to the other leaves
/// the allocated number unchanged.
pub proof fn lemma_next_number_source_indifferent(
    branches: Seq<Seq<char>>,
    files: Seq<Seq<char>>,
    name: Seq<char>,
)
    ensures
        spec_next_rfc_number(branches.push(name), files) == spec_next_rfc_number(
            branches,
            files.push(name),
        ),
{
    assert(branches.push(name).drop_last() =~= branches);
    assert(files.push(name).drop_last() =~= files);
}

} // verus!
