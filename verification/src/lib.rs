//! Management of a git-tracked directory of numbered proposal documents:
//! discovering the documents under a root, allocating the next proposal
//! number from the ids embedded in file names and local branch names, and
//! creating and checking out a correctly named branch for a new proposal.

pub mod config;
pub mod errors;
pub mod git;
pub mod ids;
pub mod names;
pub mod numbering;
pub mod propose;
pub mod scan;
mod text;
