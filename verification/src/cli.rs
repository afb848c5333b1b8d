//! Command-line settings and the dashboard address.

use vstd::prelude::*;
use crate::text::{replace_all, replace_str};

verus! {

/// Command-line options.
#[derive(Debug, Clone)]
pub struct Cli {
    /// Path of `config.toml` (default `./config.toml`).
    pub config: String,
    /// Overrides `[web].bind`.
    pub bind: Option<String>,
    /// Overrides `[database].path`.
    pub db: Option<String>,
    /// Path to the legacy monitors file (overrides the config.toml setting).
    pub monitors: Option<String>,
}

/// The URL of the dashboard served at `bind`: a wildcard bind address is
/// shown as `localhost`.
pub open spec fn dashboard_url_text(bind: Seq<char>) -> Seq<char> {
    "http://"@ + replace_all(bind, "0.0.0.0"@, "localhost"@)
}

pub fn dashboard_url(bind: &str) -> (url: String)
    ensures
        url@ == dashboard_url_text(bind@),
{
    proof {
        reveal_strlit("0.0.0.0");
    }
    let host = replace_str(bind, "0.0.0.0", "localhost");
    let mut url = "http://".to_owned();
    url.append(host.as_str());
    url
}

} // verus!
