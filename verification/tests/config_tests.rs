use rfcs::config::{default_config, ensure_local_repo, set_config_value, Config, Git, RepoSource};
use rfcs::errors::RfcError;

#[test]
fn default_configures_nothing() {
    assert!(default_config().git.is_none());
}

#[test]
fn setting_url_then_repo_preserves_the_other() {
    let c = default_config();
    let c = set_config_value(c, "git.url", "https://example.org/rfcs.git".to_string()).unwrap();
    let g = c.git.as_ref().unwrap();
    assert_eq!(g.url.as_deref(), Some("https://example.org/rfcs.git"));
    assert!(g.repo.is_none());

    let c = set_config_value(c, "git.repo", "/tmp/rfcs".to_string()).unwrap();
    let g = c.git.as_ref().unwrap();
    assert_eq!(g.repo.as_deref(), Some("/tmp/rfcs"));
    assert_eq!(g.url.as_deref(), Some("https://example.org/rfcs.git"));
}

#[test]
fn unknown_key_is_rejected() {
    let r = set_config_value(default_config(), "git.remote", "x".to_string());
    assert!(matches!(r, Err(RfcError::UnknownConfigKey)));
}

#[test]
fn local_path_wins_over_url() {
    let git = Git {
        repo: Some("/tmp/rfcs".to_string()),
        url: Some("https://example.org/rfcs.git".to_string()),
    };
    let r = ensure_local_repo(Some(git)).unwrap();
    assert!(matches!(r, RepoSource::Local(p) if p == "/tmp/rfcs"));
}

#[test]
fn url_alone_asks_for_a_clone() {
    let git = Git {
        repo: None,
        url: Some("https://example.org/rfcs.git".to_string()),
    };
    let r = ensure_local_repo(Some(git)).unwrap();
    assert!(matches!(r, RepoSource::CloneFrom(u) if u == "https://example.org/rfcs.git"));
}

#[test]
fn nothing_configured_is_an_error() {
    let r = ensure_local_repo(None);
    assert!(matches!(r, Err(RfcError::NoRepoConfigured)));

    let bare: Config = Config {
        git: Some(Git { repo: None, url: None }),
    };
    let r = ensure_local_repo(bare.git);
    assert!(matches!(r, Err(RfcError::NoRepoConfigured)));
}
