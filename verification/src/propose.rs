use vstd::prelude::*;

use crate::errors::RfcError;
use crate::git::{create_and_switch_to_branch, list_branches};
use crate::names::{proposal_branch_name, spec_branch_name};
use crate::numbering::next_rfc_number;
use crate::scan::files_in_rfc_repo;

verus! {

/// Starts a new proposal in the repository at `path`: lists the local
/// branches and the proposal documents, allocates the next number from both,
/// names the branch after the padded number and the slug of the title, and
/// creates and checks that branch out.  Every failure along the way
/// propagates unchanged — only the listing, scanning and branch-creation
/// errors can come out — and on success the created branch name is
/// returned: always the allocated id zero-padded to at least three digits,
/// a hyphen, and the title's slug.
pub fn create_proposal(path: &str, title: &str) -> (r: Result<String, RfcError>)
    ensures
        r matches Ok(name) ==> exists|id: int|
            1 <= id <= u64::MAX && name@ == spec_branch_name(id, title@),
        r matches Err(e) ==> (e is RepoOpen || e is ListBranches || e is Scan || e is NoMainBranch
            || e is BranchExists || e is CheckoutConflict || e is GitFailure),
{
    let branches = match list_branches(path) {
        Ok(b) => b,
        Err(e) => return Err(e),
    };
    let files = match files_in_rfc_repo(path) {
        Ok(f) => f,
        Err(e) => return Err(e),
    };
    let next = next_rfc_number(&branches, &files);
    let name = proposal_branch_name(next, title);
    match create_and_switch_to_branch(path, name.as_str()) {
        Ok(_) => {
            proof {
                assert(name@ == spec_branch_name(next as int, title@));
            }
            Ok(name)
        },
        Err(e) => Err(e),
    }
}

} // verus!
