use std::io::Write;

use vstd::prelude::*;

use crate::errors::RfcError;
use crate::numbering::names_view;

verus! {

#[verifier::external_type_specification]
#[verifier::external_body]
pub struct ExRepository(git2::Repository);

#[verifier::external_type_specification]
#[verifier::external_body]
pub struct ExGitError(git2::Error);

#[verifier::external_type_specification]
#[verifier::external_body]
pub struct ExBranch<'a>(git2::Branch<'a>);

#[verifier::external_type_specification]
#[verifier::external_body]
pub struct ExCommit<'a>(git2::Commit<'a>);

/// The coarse classification of a git error that the library's decisions
/// turn on: a ref that already exists, a ref that is missing, or anything
/// else.
#[derive(Debug, Clone, Copy, PartialEq, Eq, Structural)]
pub enum GitErrorKind {
    Exists,
    NotFound,
    Other,
}

/// Relies on git2::Repository::open: opens the existing repository at
/// `path`.  A path that holds no repository is an error — opening never
/// creates or changes anything on disk.
#[verifier::external_body]
fn repo_open(path: &str) -> Result<git2::Repository, git2::Error> {
    git2::Repository::open(std::path::Path::new(path))
}

/// Relies on git2::Repository::find_branch: looks a local branch up by its
/// short name.
#[verifier::external_body]
fn find_local_branch<'r>(repo: &'r git2::Repository, name: &str) -> Result<
    git2::Branch<'r>,
    git2::Error,
> {
    repo.find_branch(name, git2::BranchType::Local)
}

/// Relies on git2::Branch::into_reference and
/// git2::Reference::peel_to_commit: the commit the branch points at.
#[verifier::external_body]
fn branch_head_commit<'r>(branch: git2::Branch<'r>) -> Result<git2::Commit<'r>, git2::Error> {
    branch.into_reference().peel_to_commit()
}

/// Relies on git2::Repository::branch with force off: creates a new local
/// branch named `name` at `target`, failing with the Exists code where a
/// branch of that name is already there.
#[verifier::external_body]
fn create_branch(repo: &git2::Repository, name: &str, target: &git2::Commit<'_>) -> Result<
    (),
    git2::Error,
> {
    match repo.branch(name, target, false) {
        Ok(_) => Ok(()),
        Err(e) => Err(e),
    }
}

/// Relies on git2::Repository::checkout_tree under
/// git2::build::CheckoutBuilder::safe: updates the working tree to the
/// commit's tree, refusing to overwrite uncommitted local changes.
#[verifier::external_body]
fn checkout_tree_safe(repo: &git2::Repository, target: &git2::Commit<'_>) -> Result<
    (),
    git2::Error,
> {
    let mut opts = git2::build::CheckoutBuilder::new();
    opts.safe();
    repo.checkout_tree(target.as_object(), Some(&mut opts))
}

/// Relies on git2::Repository::set_head: points HEAD at the given reference
/// name, attaching it to that branch.
#[verifier::external_body]
fn set_head_ref(repo: &git2::Repository, refname: &str) -> Result<(), git2::Error> {
    repo.set_head(refname)
}

/// Relies on git2::Error::code: tells the Exists and NotFound error codes
/// apart from the rest.
#[verifier::external_body]
fn git_error_kind(e: &git2::Error) -> GitErrorKind {
    match e.code() {
        git2::ErrorCode::Exists => GitErrorKind::Exists,
        git2::ErrorCode::NotFound => GitErrorKind::NotFound,
        _ => GitErrorKind::Other,
    }
}

/// Relies on git2::Error::message: the error's message text.
#[verifier::external_body]
fn git_error_message(e: &git2::Error) -> String {
    e.message().to_string()
}

/// Relies on git2::Repository::branches over local branches and
/// git2::Branch::name_bytes: each enumerated branch becomes one entry —
/// its short name, `None` where the name is not valid UTF-8, or, where the
/// entry or its name cannot be read, the failure's message, which is also
/// logged.  Only an enumeration that cannot start at all is the outer error.
#[verifier::external_body]
fn local_branch_entries_raw(repo: &git2::Repository) -> Result<
    Vec<Result<Option<String>, String>>,
    git2::Error,
> {
    let mut out: Vec<Result<Option<String>, String>> = Vec::new();
    for item in repo.branches(Some(git2::BranchType::Local))? {
        match item.and_then(|(branch, _)| branch.name_bytes().map(|name| name.to_vec())) {
            Ok(bytes) => out.push(Ok(String::from_utf8(bytes).ok())),
            Err(e) => {
                let _ = writeln!(std::io::stderr(), "Error while listing a branch: {}", e);
                out.push(Err(e.to_string()));
            },
        }
    }
    Ok(out)
}

/// What one readable branch entry contributes to the listing: its name, or
/// the sentinel where the name was not valid UTF-8, so that every branch
/// still participates in numbering.
pub open spec fn spec_display_name(name: Option<String>) -> Seq<char> {
    match name {
        Some(n) => n@,
        None => "<invalid utf-8 branch name>"@,
    }
}

/// The lister's recovery rule over the enumerated branches: a readable
/// entry is kept — under the sentinel where its name was not valid UTF-8 —
/// and an entry that could not be read is skipped, in order.
pub open spec fn spec_listed_names(entries: Seq<Result<Option<String>, String>>) -> Seq<Seq<char>>
    decreases entries.len(),
{
    if entries.len() == 0 {
        Seq::empty()
    } else {
        let rest = spec_listed_names(entries.drop_last());
        match entries.last() {
            Ok(n) => rest + seq![spec_display_name(n)],
            Err(_) => rest,
        }
    }
}

/// Applies the lister's recovery rule: every readable branch is kept, a
/// name that is not valid UTF-8 as the sentinel, and an unreadable entry is
/// skipped.
pub fn listed_branch_names(entries: &Vec<Result<Option<String>, String>>) -> (r: Vec<String>)
    ensures
        names_view(r@) == spec_listed_names(entries@),
{
    let mut out: Vec<String> = Vec::new();
    let mut j: usize = 0;
    proof {
        assert(names_view(out@) =~= spec_listed_names(entries@.take(0)));
    }
    while j < entries.len()
        invariant
            0 <= j <= entries@.len(),
            names_view(out@) == spec_listed_names(entries@.take(j as int)),
        decreases entries@.len() - j,
    {
        let ghost out_before = out@;
        match &entries[j] {
            Ok(n) => {
                match n {
                    Some(name) => out.push(name.clone()),
                    None => out.push("<invalid utf-8 branch name>".to_owned()),
                }
                proof {
                    assert(names_view(out@) =~= names_view(out_before) + seq![
                        spec_display_name(*n),
                    ]);
                }
            },
            Err(_) => {
                // this branch could not be enumerated; it was logged, and is
                // skipped here
            },
        }
        proof {
            assert(entries@.take(j as int + 1).drop_last() =~= entries@.take(j as int));
            assert(entries@.take(j as int + 1).last() == entries@[j as int]);
            assert(names_view(out@) =~= spec_listed_names(entries@.take(j as int + 1)));
        }
        j += 1;
    }
    proof {
        assert(entries@.take(entries@.len() as int) =~= entries@);
    }
    out
}

/// Retrieves all local git branches of the repository at `path`, stripped
/// down to their short names.  A name that is not valid UTF-8 is reported as
/// the sentinel string rather than dropped; a branch that cannot be
/// enumerated is logged and skipped, by `spec_listed_names`.  What the
/// enumeration yields depends on the repository on disk, so nothing is
/// promised of the returned names themselves.
pub fn list_branches(path: &str) -> (r: Result<Vec<String>, RfcError>)
    ensures
        r matches Err(e) ==> (e is RepoOpen || e is ListBranches),
{
    let repo = match repo_open(path) {
        Ok(x) => x,
        Err(e) => return Err(RfcError::RepoOpen(git_error_message(&e))),
    };
    match local_branch_entries_raw(&repo) {
        Ok(entries) => Ok(listed_branch_names(&entries)),
        Err(e) => Err(RfcError::ListBranches(git_error_message(&e))),
    }
}

/// The states of branch creation, in the order a successful run reaches
/// them.  `HeadUpdated` is success.
#[derive(Debug, Clone, Copy, PartialEq, Eq, Structural)]
pub enum CreateState {
    Start,
    MainFound,
    BranchCreated,
    TreeCheckedOut,
    HeadUpdated,
}

/// The outcome of the git operation one step of branch creation makes.
#[derive(Debug, Clone, Copy, PartialEq, Eq, Structural)]
pub enum OpOutcome {
    Success,
    Failed(GitErrorKind),
}

/// How a step of branch creation fails.  Each step's failure is distinct:
/// a missing main line, a branch name already taken, a refused checkout,
/// and any other git failure (a HEAD update among them).
#[derive(Debug, Clone, Copy, PartialEq, Eq, Structural)]
pub enum CreateFailure {
    NoMainBranch,
    BranchExists,
    CheckoutConflict,
    GitFailure,
}

/// The state machine of branch creation.  From `Start` the head of the main
/// line is located (a missing ref means there is no main line); from
/// `MainFound` the branch ref is created (an existing ref means the name is
/// taken); from `BranchCreated` the working tree is checked out safely; from
/// `TreeCheckedOut` HEAD is attached to the new branch, which is success.
pub open spec fn spec_step(s: CreateState, outcome: OpOutcome) -> Result<
    CreateState,
    CreateFailure,
> {
    match s {
        CreateState::Start => match outcome {
            OpOutcome::Success => Ok(CreateState::MainFound),
            OpOutcome::Failed(k) => if k == GitErrorKind::NotFound {
                Err(CreateFailure::NoMainBranch)
            } else {
                Err(CreateFailure::GitFailure)
            },
        },
        CreateState::MainFound => match outcome {
            OpOutcome::Success => Ok(CreateState::BranchCreated),
            OpOutcome::Failed(k) => if k == GitErrorKind::Exists {
                Err(CreateFailure::BranchExists)
            } else {
                Err(CreateFailure::GitFailure)
            },
        },
        CreateState::BranchCreated => match outcome {
            OpOutcome::Success => Ok(CreateState::TreeCheckedOut),
            OpOutcome::Failed(_) => Err(CreateFailure::CheckoutConflict),
        },
        CreateState::TreeCheckedOut => match outcome {
            OpOutcome::Success => Ok(CreateState::HeadUpdated),
            OpOutcome::Failed(_) => Err(CreateFailure::GitFailure),
        },
        CreateState::HeadUpdated => Ok(CreateState::HeadUpdated),
    }
}

/// Whether the branch ref exists on disk in this state.
pub open spec fn spec_ref_created(s: CreateState) -> bool {
    s == CreateState::BranchCreated || s == CreateState::TreeCheckedOut || s
        == CreateState::HeadUpdated
}

/// Once the branch ref is created it stays created: no step taken from a
/// state that has the ref reaches a state without it, and a failing checkout
/// or HEAD update leaves the machine where the ref exists — there is no
/// rollback.  A retry under the same name therefore meets the existing ref
/// at the creation step and fails with `BranchExists`, never silently
/// succeeding: `spec_step(MainFound, Failed(Exists))` is that very error.
pub proof fn lemma_ref_persists(s: CreateState, outcome: OpOutcome)
    requires
        spec_ref_created(s),
    ensures
        spec_step(s, outcome) matches Ok(s2) ==> spec_ref_created(s2),
        spec_step(CreateState::MainFound, OpOutcome::Failed(GitErrorKind::Exists)) == Err::<
            CreateState,
            CreateFailure,
        >(CreateFailure::BranchExists),
{
}

/// Takes one step of the branch-creation state machine.
pub fn create_step(s: CreateState, outcome: OpOutcome) -> (r: Result<CreateState, CreateFailure>)
    ensures
        r == spec_step(s, outcome),
{
    match s {
        CreateState::Start => match outcome {
            OpOutcome::Success => Ok(CreateState::MainFound),
            OpOutcome::Failed(k) => match k {
                GitErrorKind::NotFound => Err(CreateFailure::NoMainBranch),
                _ => Err(CreateFailure::GitFailure),
            },
        },
        CreateState::MainFound => match outcome {
            OpOutcome::Success => Ok(CreateState::BranchCreated),
            OpOutcome::Failed(k) => match k {
                GitErrorKind::Exists => Err(CreateFailure::BranchExists),
                _ => Err(CreateFailure::GitFailure),
            },
        },
        CreateState::BranchCreated => match outcome {
            OpOutcome::Success => Ok(CreateState::TreeCheckedOut),
            OpOutcome::Failed(_) => Err(CreateFailure::CheckoutConflict),
        },
        CreateState::TreeCheckedOut => match outcome {
            OpOutcome::Success => Ok(CreateState::HeadUpdated),
            OpOutcome::Failed(_) => Err(CreateFailure::GitFailure),
        },
        CreateState::HeadUpdated => Ok(CreateState::HeadUpdated),
    }
}

/// The failure of the step taken from `s`, classified by the kind of the
/// git error the step's operation reported.
fn classify_failure(s: CreateState, k: GitErrorKind) -> (f: CreateFailure)
    requires
        !(s is HeadUpdated),
    ensures
        spec_step(s, OpOutcome::Failed(k)) == Err::<CreateState, CreateFailure>(f),
{
    match create_step(s, OpOutcome::Failed(k)) {
        Err(f) => f,
        Ok(_) => {
            proof {
                assert(false);
            }
            CreateFailure::GitFailure
        },
    }
}

/// Attaches the message of the underlying git failure to a classified
/// step failure.
fn failure_to_error(f: CreateFailure, msg: String) -> (r: RfcError)
    ensures
        f == CreateFailure::NoMainBranch ==> r == RfcError::NoMainBranch,
        f == CreateFailure::BranchExists ==> r == RfcError::BranchExists,
        f == CreateFailure::CheckoutConflict ==> (r matches RfcError::CheckoutConflict(m) && m@
            == msg@),
        f == CreateFailure::GitFailure ==> (r matches RfcError::GitFailure(m) && m@ == msg@),
{
    match f {
        CreateFailure::NoMainBranch => RfcError::NoMainBranch,
        CreateFailure::BranchExists => RfcError::BranchExists,
        CreateFailure::CheckoutConflict => RfcError::CheckoutConflict(msg),
        CreateFailure::GitFailure => RfcError::GitFailure(msg),
    }
}

/// The kind under which a failed main-line resolution is reported, decided
/// from the kinds of the two branch lookups.  `master` is consulted only
/// when `main` is missing (`None` says it was not consulted, because the
/// lookup of `main` failed some other way), and the missing-main-line kind,
/// NotFound, results exactly when both lookups reported a missing ref.
/// Every other combination is an ordinary git failure.
pub open spec fn spec_main_line_failure(
    main_kind: GitErrorKind,
    master_kind: Option<GitErrorKind>,
) -> GitErrorKind {
    match master_kind {
        Some(mk) => if main_kind == GitErrorKind::NotFound && mk == GitErrorKind::NotFound {
            GitErrorKind::NotFound
        } else {
            GitErrorKind::Other
        },
        None => GitErrorKind::Other,
    }
}

/// Decides how a failed main-line resolution is reported.
pub fn main_line_failure_kind(main_kind: GitErrorKind, master_kind: Option<GitErrorKind>) -> (r:
    GitErrorKind)
    ensures
        r == spec_main_line_failure(main_kind, master_kind),
        r == GitErrorKind::NotFound <==> (main_kind == GitErrorKind::NotFound && master_kind
            == Some(GitErrorKind::NotFound)),
{
    match master_kind {
        Some(mk) => {
            if main_kind == GitErrorKind::NotFound && mk == GitErrorKind::NotFound {
                GitErrorKind::NotFound
            } else {
                GitErrorKind::Other
            }
        },
        None => GitErrorKind::Other,
    }
}

/// Finds the head commit of the main line: branch `main` where it exists,
/// with `master` consulted only when `main` is missing.  On failure the
/// carried kind is fixed by `spec_main_line_failure`: NotFound — no main
/// line at all — exactly when both lookups reported a missing ref; any
/// other failure, a commit that cannot be peeled among them, is Other.
fn find_main_branch_head<'r>(repo: &'r git2::Repository) -> (r: Result<
    git2::Commit<'r>,
    (GitErrorKind, String),
>)
    ensures
        r matches Err(p) ==> (p.0 == GitErrorKind::NotFound || p.0 == GitErrorKind::Other),
{
    match find_local_branch(repo, "main") {
        Ok(b) => match branch_head_commit(b) {
            Ok(c) => Ok(c),
            Err(e) => Err((GitErrorKind::Other, git_error_message(&e))),
        },
        Err(e) => {
            let main_kind = git_error_kind(&e);
            match main_kind {
                GitErrorKind::NotFound => match find_local_branch(repo, "master") {
                    Ok(b) => match branch_head_commit(b) {
                        Ok(c) => Ok(c),
                        Err(e2) => Err((GitErrorKind::Other, git_error_message(&e2))),
                    },
                    Err(e2) => {
                        let master_kind = git_error_kind(&e2);
                        Err(
                            (
                                main_line_failure_kind(main_kind, Some(master_kind)),
                                git_error_message(&e2),
                            ),
                        )
                    },
                },
                _ => Err((main_line_failure_kind(main_kind, None), git_error_message(&e))),
            }
        },
    }
}

/// The fully qualified name of a local branch ref.
pub fn full_ref_name(branch: &str) -> (r: String)
    ensures
        r@ == "refs/heads/"@ + branch@,
{
    let mut out = "refs/heads/".to_owned();
    out.append(branch);
    out
}

/// Works like `git checkout -b branch_name`: finds the head of the main
/// line, creates the branch there, checks the working tree out safely, and
/// attaches HEAD to the new branch — the four steps of `spec_step`, in
/// order, each failure classified by the machine.  A failure after the
/// branch ref is created leaves the ref in place: there is no rollback.
pub fn create_and_switch_to_branch(path: &str, branch_name: &str) -> (r: Result<(), RfcError>)
    ensures
        r matches Err(e) ==> (e is RepoOpen || e is NoMainBranch || e is BranchExists
            || e is CheckoutConflict || e is GitFailure),
{
    let repo = match repo_open(path) {
        Ok(x) => x,
        Err(e) => return Err(RfcError::RepoOpen(git_error_message(&e))),
    };
    let head = match find_main_branch_head(&repo) {
        Ok(c) => c,
        Err((k, msg)) => {
            return Err(failure_to_error(classify_failure(CreateState::Start, k), msg));
        },
    };
    match create_branch(&repo, branch_name, &head) {
        Ok(_) => {},
        Err(e) => {
            let k = git_error_kind(&e);
            let msg = git_error_message(&e);
            return Err(failure_to_error(classify_failure(CreateState::MainFound, k), msg));
        },
    }
    match checkout_tree_safe(&repo, &head) {
        Ok(_) => {},
        Err(e) => {
            let k = git_error_kind(&e);
            let msg = git_error_message(&e);
            return Err(failure_to_error(classify_failure(CreateState::BranchCreated, k), msg));
        },
    }
    let refname = full_ref_name(branch_name);
    match set_head_ref(&repo, refname.as_str()) {
        Ok(_) => Ok(()),
        Err(e) => {
            let k = git_error_kind(&e);
            let msg = git_error_message(&e);
            Err(failure_to_error(classify_failure(CreateState::TreeCheckedOut, k), msg))
        },
    }
}

} // verus!
