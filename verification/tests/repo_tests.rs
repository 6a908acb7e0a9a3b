use std::io::Write;

use rfcs::errors::RfcError;
use rfcs::git::{create_and_switch_to_branch, list_branches, listed_branch_names};
use rfcs::numbering::next_rfc_number;
use rfcs::propose::create_proposal;
use rfcs::scan::files_in_rfc_repo;

/// A temporary directory whose own path carries no digit run, so that only
/// the fixture's file and branch names take part in numbering.
fn digitless_tempdir() -> tempfile::TempDir {
    let mut tries: usize = 0;
    loop {
        let dir = tempfile::tempdir().unwrap();
        if rfcs::ids::find_digit_run(dir.path().to_str().unwrap()).is_none() {
            return dir;
        }
        tries += 1;
        if tries > 64 {
            panic!("temporary directory paths always carry a digit run");
        }
    }
}

fn init_repo_with_head(dir: &std::path::Path, head: &str) -> git2::Repository {
    let mut opts = git2::RepositoryInitOptions::new();
    opts.initial_head(head);
    let repo = git2::Repository::init_opts(dir, &opts).unwrap();
    {
        let sig = git2::Signature::now("tester", "tester@example.org").unwrap();
        let tree_id = {
            let mut index = repo.index().unwrap();
            index.write_tree().unwrap()
        };
        let tree = repo.find_tree(tree_id).unwrap();
        repo.commit(Some("HEAD"), &sig, &sig, "initial", &tree, &[])
            .unwrap();
    }
    repo
}

#[test]
fn first_proposal_in_a_fresh_repository() {
    let dir = digitless_tempdir();
    let repo = init_repo_with_head(dir.path(), "main");
    let path = dir.path().to_str().unwrap();

    let name = create_proposal(path, "First idea").unwrap();
    assert_eq!(name, "001-First-idea");
    assert_eq!(repo.head().unwrap().shorthand().unwrap(), "001-First-idea");
}

#[test]
fn stale_branch_and_files_advance_numbering() {
    let dir = digitless_tempdir();
    let repo = init_repo_with_head(dir.path(), "main");
    let path = dir.path().to_str().unwrap();

    let _f1 = tempfile::Builder::new()
        .prefix("003-x")
        .suffix(".md")
        .rand_bytes(0)
        .tempfile_in(dir.path())
        .unwrap();
    let _f2 = tempfile::Builder::new()
        .prefix("007-y")
        .suffix(".txt")
        .rand_bytes(0)
        .tempfile_in(dir.path())
        .unwrap();
    let head = repo.head().unwrap().peel_to_commit().unwrap();
    repo.branch("010-stale", &head, false).unwrap();

    let branches = list_branches(path).unwrap();
    assert!(branches.iter().any(|b| b == "main"));
    assert!(branches.iter().any(|b| b == "010-stale"));

    let files = files_in_rfc_repo(path).unwrap();
    assert!(files.iter().any(|f| f.ends_with("003-x.md")));
    assert!(files.iter().any(|f| f.ends_with("007-y.txt")));
    assert_eq!(files.len(), 2);

    assert_eq!(next_rfc_number(&branches, &files), 11);

    let name = create_proposal(path, "Next step").unwrap();
    assert_eq!(name, "011-Next-step");
}

#[test]
fn retry_with_the_same_name_fails_with_branch_exists() {
    let dir = digitless_tempdir();
    let repo = init_repo_with_head(dir.path(), "main");
    let path = dir.path().to_str().unwrap();

    create_and_switch_to_branch(path, "005-keep").unwrap();
    let err = create_and_switch_to_branch(path, "005-keep").unwrap_err();
    assert!(matches!(err, RfcError::BranchExists));
    // the ref created first is still there
    assert!(repo
        .find_branch("005-keep", git2::BranchType::Local)
        .is_ok());
}

#[test]
fn missing_main_line_is_reported() {
    let dir = digitless_tempdir();
    git2::Repository::init(dir.path()).unwrap();
    let err = create_and_switch_to_branch(dir.path().to_str().unwrap(), "001-x").unwrap_err();
    assert!(matches!(err, RfcError::NoMainBranch));
}

#[test]
fn master_serves_as_the_main_line() {
    let dir = digitless_tempdir();
    let repo = init_repo_with_head(dir.path(), "master");
    let path = dir.path().to_str().unwrap();

    let name = create_proposal(path, "Fallback").unwrap();
    assert_eq!(name, "001-Fallback");
    assert_eq!(repo.head().unwrap().shorthand().unwrap(), "001-Fallback");
}

#[test]
fn punctuation_only_title_creates_a_branch() {
    let dir = digitless_tempdir();
    let repo = init_repo_with_head(dir.path(), "main");
    let path = dir.path().to_str().unwrap();

    let name = create_proposal(path, "???").unwrap();
    assert_eq!(name, "001-");
    assert_eq!(repo.head().unwrap().shorthand().unwrap(), "001-");
}

#[test]
fn checkout_conflict_leaves_the_branch_ref() {
    let dir = digitless_tempdir();
    let mut opts = git2::RepositoryInitOptions::new();
    opts.initial_head("side");
    let repo = git2::Repository::init_opts(dir.path(), &opts).unwrap();
    let sig = git2::Signature::now("tester", "tester@example.org").unwrap();

    // the side branch stays on an empty tree, and HEAD stays on it
    let empty_tree_id = {
        let mut index = repo.index().unwrap();
        index.write_tree().unwrap()
    };
    let empty_tree = repo.find_tree(empty_tree_id).unwrap();
    let side = repo
        .commit(Some("HEAD"), &sig, &sig, "side", &empty_tree, &[])
        .unwrap();
    let side_commit = repo.find_commit(side).unwrap();

    // main carries a tracked file the working tree does not have
    let blob = repo.blob(b"tracked contents\n").unwrap();
    let mut builder = repo.treebuilder(None).unwrap();
    builder.insert("g.txt", blob, 0o100644).unwrap();
    let tree_id = builder.write().unwrap();
    let tree = repo.find_tree(tree_id).unwrap();
    repo.commit(Some("refs/heads/main"), &sig, &sig, "main", &tree, &[&side_commit])
        .unwrap();

    // an untracked file with other contents stands in checkout's way
    let mut blocker = tempfile::Builder::new()
        .prefix("g")
        .suffix(".txt")
        .rand_bytes(0)
        .tempfile_in(dir.path())
        .unwrap();
    blocker.write_all(b"local, uncommitted\n").unwrap();

    let path = dir.path().to_str().unwrap();
    let err = create_and_switch_to_branch(path, "009-x").unwrap_err();
    assert!(matches!(err, RfcError::CheckoutConflict(_)));
    // the ref created before the failing checkout remains: no rollback
    assert!(repo.find_branch("009-x", git2::BranchType::Local).is_ok());
    // so a retry under the same name must fail, not silently succeed
    let err = create_and_switch_to_branch(path, "009-x").unwrap_err();
    assert!(matches!(err, RfcError::BranchExists));
}

#[test]
fn branch_listing_recovery_rules() {
    // a readable name is kept, an invalid-utf-8 name becomes the sentinel,
    // and a branch whose entry could not be read is skipped
    let entries: Vec<Result<Option<String>, String>> = vec![
        Ok(Some("main".to_string())),
        Err("transient failure".to_string()),
        Ok(None),
        Ok(Some("010-stale".to_string())),
    ];
    let out = listed_branch_names(&entries);
    assert_eq!(
        out,
        vec![
            "main".to_string(),
            "<invalid utf-8 branch name>".to_string(),
            "010-stale".to_string(),
        ]
    );
}

#[test]
fn opening_a_plain_directory_fails() {
    // a directory that is no repository is never silently turned into one
    let dir = digitless_tempdir();
    let err = list_branches(dir.path().to_str().unwrap()).unwrap_err();
    assert!(matches!(err, RfcError::RepoOpen(_)));
    let err = create_and_switch_to_branch(dir.path().to_str().unwrap(), "001-x").unwrap_err();
    assert!(matches!(err, RfcError::RepoOpen(_)));
}

#[test]
fn unreadable_root_is_fatal_for_the_scan() {
    let err = files_in_rfc_repo("/nonexistent/surely/missing").unwrap_err();
    assert!(matches!(err, RfcError::Scan(_)));
}
