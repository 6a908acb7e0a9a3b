use rfcs::ids::extract_rfc_id;
use rfcs::numbering::next_rfc_number;

#[test]
fn extracts_first_maximal_digit_run() {
    assert_eq!(extract_rfc_id("000-a.md"), Some(0));
    assert_eq!(extract_rfc_id("041-b.txt"), Some(41));
    assert_eq!(extract_rfc_id("017-c"), Some(17));
    assert_eq!(extract_rfc_id("./18215-a-future-rfc.adoc"), Some(18215));
    // the first run of three or more digits wins, read maximally
    assert_eq!(extract_rfc_id("ab12cd3456ef78901"), Some(3456));
    assert_eq!(extract_rfc_id("1234-then-567"), Some(1234));
}

#[test]
fn names_without_a_run_contribute_nothing() {
    assert_eq!(extract_rfc_id("main"), None);
    assert_eq!(extract_rfc_id("fix-typo"), None);
    assert_eq!(extract_rfc_id("12-too-short"), None);
    assert_eq!(extract_rfc_id(""), None);
    // a run too large for a machine integer is dropped like no run at all
    assert_eq!(extract_rfc_id("9999999999999999999999999-huge.md"), None);
}

#[test]
fn file_and_branch_share_one_extraction_rule() {
    assert_eq!(extract_rfc_id("007-x.md"), extract_rfc_id("007-x"));
    assert_eq!(extract_rfc_id("007-x"), Some(7));
}

#[test]
fn allocates_one_past_the_maximum() {
    let files = vec!["000-a.md".to_string(), "041-b.txt".to_string()];
    let branches = vec!["017-c".to_string(), "main".to_string()];
    assert_eq!(next_rfc_number(&branches, &files), 42);
}

#[test]
fn allocation_is_deterministic() {
    let files = vec!["000-a.md".to_string(), "041-b.txt".to_string()];
    let branches = vec!["017-c".to_string(), "main".to_string()];
    let first = next_rfc_number(&branches, &files);
    let second = next_rfc_number(&branches, &files);
    assert_eq!(first, second);
}

#[test]
fn allocates_one_where_nothing_is_numbered() {
    let branches = vec!["main".to_string(), "fix-typo".to_string()];
    let files: Vec<String> = vec![];
    assert_eq!(next_rfc_number(&branches, &files), 1);
}

#[test]
fn id_zero_allocates_one() {
    let branches: Vec<String> = vec![];
    let files = vec!["000-a.md".to_string()];
    assert_eq!(next_rfc_number(&branches, &files), 1);
}

#[test]
fn stale_branch_advances_numbering() {
    let branches = vec!["010-stale".to_string()];
    let files = vec!["003-x.md".to_string(), "007-y.txt".to_string()];
    assert_eq!(next_rfc_number(&branches, &files), 11);
}

#[test]
fn sources_are_interchangeable() {
    let names = vec!["003-x.md".to_string(), "007-y".to_string(), "main".to_string()];
    let empty: Vec<String> = vec![];
    assert_eq!(
        next_rfc_number(&names, &empty),
        next_rfc_number(&empty, &names)
    );
}
