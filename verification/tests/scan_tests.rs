use rfcs::errors::RfcError;
use rfcs::scan::{
    collect_walk_paths, dedup_paths, file_has_rfc_id, file_is_text_document, filter_rfc_documents,
};

#[test]
fn test_positive_rfc_ids() {
    let should_match = vec![
        "./000-rfc-for-rfcs.md",
        "./001-some-other-rfc.txt",
        "./18215-a-future-rfc.adoc",
    ];

    should_match.iter().for_each(|f| assert!(file_has_rfc_id(f)));
    should_match.iter().for_each(|f| assert!(file_is_text_document(f)));
}

#[test]
fn test_negative_rfc_ids() {
    let should_not_match = vec!["./readme.org", "./91_migration.sql", "./src/main.rs"];

    should_not_match
        .iter()
        .for_each(|f| assert!(!(file_has_rfc_id(f) && file_is_text_document(f))));
}

#[test]
fn sql_files_never_listed() {
    let paths: Vec<String> = vec![
        "repo/123-schema.sql".to_string(),
        "repo/123-schema.md".to_string(),
        "repo/0919-data.sql".to_string(),
    ];
    let out = filter_rfc_documents(&paths);
    assert_eq!(out, vec!["repo/123-schema.md".to_string()]);
}

#[test]
fn filter_keeps_exactly_the_documents() {
    let paths: Vec<String> = vec![
        "a/003-x.md".to_string(),
        "a/007-y.txt".to_string(),
        "a/notes.md".to_string(),
        "a/010-z".to_string(),
        "a/044-w.rst".to_string(),
    ];
    let out = filter_rfc_documents(&paths);
    assert_eq!(
        out,
        vec![
            "a/003-x.md".to_string(),
            "a/007-y.txt".to_string(),
            "a/044-w.rst".to_string(),
        ]
    );
}

#[test]
fn extension_rules_are_exact() {
    // all six allowed extensions are recognized
    assert!(file_is_text_document("123-a.txt"));
    assert!(file_is_text_document("123-a.md"));
    assert!(file_is_text_document("123-a.markdown"));
    assert!(file_is_text_document("123-a.rst"));
    assert!(file_is_text_document("123-a.adoc"));
    assert!(file_is_text_document("123-a.org"));
    // matching is exact and case-sensitive
    assert!(!file_is_text_document("123-a.MD"));
    assert!(!file_is_text_document("123-a.mdx"));
    assert!(!file_is_text_document("123-a"));
    // a lone leading dot marks a hidden file, not an extension
    assert!(!file_is_text_document(".md"));
    // only the final component carries the extension and the digits
    assert!(file_is_text_document("dir.sql/123-a.md"));
    assert!(!file_has_rfc_id("dir123/readme.md"));
    assert!(file_has_rfc_id("archive.tar/456-x.md"));
}

#[test]
fn trailing_separators_are_ignored() {
    // like std's Path, the file-name rule drops trailing separators
    assert!(file_has_rfc_id("123456/"));
    assert!(file_is_text_document("123-a.md/"));
    assert!(file_has_rfc_id("dir/123-a.md//"));
    // the separator does not expose an enclosing directory's name
    assert!(!file_has_rfc_id("123456/x"));
    assert!(!file_is_text_document("123-a.md/x"));
}

#[test]
fn repeated_path_strings_collapse() {
    let paths: Vec<String> = vec![
        "a/003-x.md".to_string(),
        "a/003-x.md".to_string(),
        "a/007-y.txt".to_string(),
        "a/003-x.md".to_string(),
    ];
    assert_eq!(
        dedup_paths(&paths),
        vec!["a/003-x.md".to_string(), "a/007-y.txt".to_string()]
    );
}

#[test]
fn walk_errors_partition() {
    let entries: Vec<Result<String, (usize, String)>> = vec![
        Ok("root".to_string()),
        Err((2, "locked".to_string())),
        Ok("root/003-a.md".to_string()),
    ];
    let got = collect_walk_paths(&entries).unwrap();
    assert_eq!(got, vec!["root".to_string(), "root/003-a.md".to_string()]);

    let fatal: Vec<Result<String, (usize, String)>> = vec![
        Ok("root".to_string()),
        Err((0, "denied".to_string())),
        Ok("root/003-a.md".to_string()),
    ];
    let err = collect_walk_paths(&fatal).unwrap_err();
    assert!(matches!(err, RfcError::Scan(m) if m == "denied"));
}
