use rfcs::names::{proposal_branch_name, slugify};

#[test]
fn slug_replaces_spaces_and_drops_punctuation() {
    assert_eq!(slugify("Add metrics"), "Add-metrics");
    assert_eq!(slugify("Hello, world. Really?!"), "Hello-world-Really");
    assert_eq!(slugify(""), "");
    // only the fixed set is removed; other punctuation passes through
    assert_eq!(slugify("semi;colon:dash-"), "semi;colon:dash-");
    assert_eq!(slugify("a  b"), "a--b");
}

#[test]
fn branch_name_is_padded_id_hyphen_slug() {
    assert_eq!(proposal_branch_name(7, "Add metrics"), "007-Add-metrics");
    assert_eq!(proposal_branch_name(0, "x"), "000-x");
    assert_eq!(proposal_branch_name(41, "b"), "041-b");
    assert_eq!(proposal_branch_name(123, "y"), "123-y");
    assert_eq!(
        proposal_branch_name(18215, "a future rfc"),
        "18215-a-future-rfc"
    );
}

#[test]
fn punctuation_only_title_keeps_name_valid() {
    let name = proposal_branch_name(1, "???");
    assert_eq!(name, "001-");
    assert!(git2::Reference::is_valid_name(&format!(
        "refs/heads/{}",
        name
    )));
}
