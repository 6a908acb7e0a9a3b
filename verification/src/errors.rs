use vstd::prelude::*;

verus! {

/// Failures surfaced by the library's operations.
///
/// The taxonomy separates the distinct failure points of proposal creation
/// (no main line, branch already present, checkout refused, HEAD update or
/// other git failure) from the fatal failures of the two listing operations
/// and from configuration mistakes.  Messages carry the underlying cause for
/// reporting; callers branch on the variant.
#[derive(Debug, Clone)]
pub enum RfcError {
    /// The repository at the given path could not be opened.
    RepoOpen(String),
    /// The local branches could not be enumerated at all.
    ListBranches(String),
    /// The root of the document tree could not be read.
    Scan(String),
    /// Neither `main` nor `master` exists in the repository.
    NoMainBranch,
    /// A branch with the requested name already exists.
    BranchExists,
    /// The safe working-tree checkout refused to proceed or failed.
    CheckoutConflict(String),
    /// Any other git failure, including a HEAD update that failed.
    GitFailure(String),
    /// The configuration key is not one of the recognized keys.
    UnknownConfigKey,
    /// Neither a local repository path nor a URL is configured.
    NoRepoConfigured,
}

impl RfcError {
    /// A short description of the failure, for reporting outside the
    /// library: a distinct text for each variant.
    pub fn describe(&self) -> (r: String)
        ensures
            self is RepoOpen ==> r@ == "failed to open git repository"@,
            self is ListBranches ==> r@ == "failed to list local branches"@,
            self is Scan ==> r@ == "failed to read the document tree root"@,
            self is NoMainBranch ==> r@ == "neither 'main' nor 'master' exists in the repository"@,
            self is BranchExists ==> r@ == "a branch with that name already exists"@,
            self is CheckoutConflict ==> r@ == "safe checkout of the working tree failed"@,
            self is GitFailure ==> r@ == "git operation failed"@,
            self is UnknownConfigKey ==> r@
                == "unknown configuration key; known keys: git.url, git.repo"@,
            self is NoRepoConfigured ==> r@
                == "no local git repo configured, and no git URL given, can't do anything; to configure, run `rfcs configure git.repo /path/to/rfcs` or `rfcs configure git.url <git URL>`"@,
    {
        let d: &str = match self {
            RfcError::RepoOpen(_) => "failed to open git repository",
            RfcError::ListBranches(_) => "failed to list local branches",
            RfcError::Scan(_) => "failed to read the document tree root",
            RfcError::NoMainBranch => "neither 'main' nor 'master' exists in the repository",
            RfcError::BranchExists => "a branch with that name already exists",
            RfcError::CheckoutConflict(_) => "safe checkout of the working tree failed",
            RfcError::GitFailure(_) => "git operation failed",
            RfcError::UnknownConfigKey => "unknown configuration key; known keys: git.url, git.repo",
            RfcError::NoRepoConfigured => "no local git repo configured, and no git URL given, can't do anything; to configure, run `rfcs configure git.repo /path/to/rfcs` or `rfcs configure git.url <git URL>`",
        };
        d.to_owned()
    }
}

} // verus!
