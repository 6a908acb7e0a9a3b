use vstd::prelude::*;

use crate::errors::RfcError;
use crate::text::str_eq;

verus! {

/// The git section of the configuration: an optional local repository path,
/// in string form, and an optional URL to clone from.
#[derive(Debug, Clone)]
pub struct Git {
    pub repo: Option<String>,
    pub url: Option<String>,
}

/// The tool's configuration.
#[derive(Debug, Clone)]
pub struct Config {
    pub git: Option<Git>,
}

/// The view of an optional string.
pub open spec fn view_opt(o: Option<String>) -> Option<Seq<char>> {
    match o {
        Some(s) => Some(s@),
        None => None,
    }
}

/// The configured local repository path, where one is set.
pub open spec fn spec_config_repo(c: Config) -> Option<Seq<char>> {
    match c.git {
        Some(g) => view_opt(g.repo),
        None => None,
    }
}

/// The configured clone URL, where one is set.
pub open spec fn spec_config_url(c: Config) -> Option<Seq<char>> {
    match c.git {
        Some(g) => view_opt(g.url),
        None => None,
    }
}

/// The configuration a fresh start begins from: nothing set.
pub fn default_config() -> (r: Config)
    ensures
        r.git is None,
{
    Config { git: None }
}

/// Applies one `key = value` setting.  `git.url` and `git.repo` are the
/// recognized keys; each sets its own field and preserves the other, and any
/// other key is rejected.
pub fn set_config_value(config: Config, key: &str, value: String) -> (r: Result<Config, RfcError>)
    ensures
        key@ == "git.url"@ ==> {
            &&& r matches Ok(c)
            &&& spec_config_url(c) == Some(value@)
            &&& spec_config_repo(c) == spec_config_repo(config)
        },
        key@ == "git.repo"@ ==> {
            &&& r matches Ok(c)
            &&& spec_config_repo(c) == Some(value@)
            &&& spec_config_url(c) == spec_config_url(config)
        },
        key@ != "git.url"@ && key@ != "git.repo"@ ==> (r matches Err(e) && e
            == RfcError::UnknownConfigKey),
{
    proof {
        reveal_strlit("git.url");
        reveal_strlit("git.repo");
        assert("git.url"@.len() != "git.repo"@.len());
        assert("git.url"@ != "git.repo"@);
    }
    if str_eq(key, "git.url") {
        let repo = match config.git {
            Some(g) => g.repo,
            None => None,
        };
        Ok(Config { git: Some(Git { repo, url: Some(value) }) })
    } else if str_eq(key, "git.repo") {
        let url = match config.git {
            Some(g) => g.url,
            None => None,
        };
        Ok(Config { git: Some(Git { repo: Some(value), url }) })
    } else {
        Err(RfcError::UnknownConfigKey)
    }
}

/// Where an operation should find its repository: an already materialized
/// local path, or a URL that must first be cloned.
#[derive(Debug, Clone)]
pub enum RepoSource {
    Local(String),
    CloneFrom(String),
}

/// Decides where the repository comes from: a configured local path wins, a
/// configured URL asks for a clone, and a configuration with neither is
/// rejected.
pub fn ensure_local_repo(git: Option<Git>) -> (r: Result<RepoSource, RfcError>)
    ensures
        match git {
            Some(g) => match g.repo {
                Some(p) => r matches Ok(RepoSource::Local(q)) && q@ == p@,
                None => match g.url {
                    Some(u) => r matches Ok(RepoSource::CloneFrom(w)) && w@ == u@,
                    None => r matches Err(e) && e == RfcError::NoRepoConfigured,
                },
            },
            None => r matches Err(e) && e == RfcError::NoRepoConfigured,
        },
{
    match git {
        Some(g) => match g.repo {
            Some(p) => Ok(RepoSource::Local(p)),
            None => match g.url {
                Some(u) => Ok(RepoSource::CloneFrom(u)),
                None => Err(RfcError::NoRepoConfigured),
            },
        },
        None => Err(RfcError::NoRepoConfigured),
    }
}

} // verus!
