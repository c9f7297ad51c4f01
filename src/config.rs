//! The process-wide configuration: where signups are forwarded.

use vstd::prelude::*;
use crate::text::{has_prefix_ignoring_case, starts_with_ignoring_case};

verus! {

/// Whether reqwest's URL parser accepts `s` as an absolute URL.
pub uninterp spec fn url_parses(s: Seq<char>) -> bool;

/// Relies on `reqwest::Url::parse` (the `url` crate's parser), which accepts
/// exactly the strings that are absolute URLs; the answer depends on `s` alone.
#[verifier::external_body]
fn parses_as_url(s: &str) -> (r: bool)
    ensures
        r == url_parses(s@),
{
    reqwest::Url::parse(s).is_ok()
}

/// A forward URL is an absolute URL whose scheme is `http` or `https`, in
/// small or capital letters.
pub open spec fn valid_forward_url(s: Seq<char>) -> bool {
    &&& starts_with_ignoring_case(s, "http://"@) || starts_with_ignoring_case(s, "https://"@)
    &&& url_parses(s)
}

/// Why the configuration could not be made.
#[derive(PartialEq, Eq, Structural, Clone, Copy, Debug)]
pub enum ConfigError {
    /// The forward URL is not set.
    Missing,
    /// The forward URL is set but is no absolute HTTP or HTTPS URL.
    NotHttpUrl,
}

/// The configuration the server runs with.
pub struct Config {
    pub forward_url: String,
}

impl Config {
    /// A configuration whose forward URL is valid.
    pub open spec fn wf(&self) -> bool {
        valid_forward_url(self.forward_url@)
    }

    /// The configuration from the value of the forward URL setting, if it
    /// is set. The server does not start on an error.
    pub fn from_setting(setting: Option<String>) -> (r: Result<Config, ConfigError>)
        ensures
            match setting {
                None => r == Err::<Config, ConfigError>(ConfigError::Missing),
                Some(url) => if valid_forward_url(url@) {
                    r matches Ok(c) && c.forward_url@ == url@ && c.wf()
                } else {
                    r == Err::<Config, ConfigError>(ConfigError::NotHttpUrl)
                },
            },
    {
        match setting {
            None => Err(ConfigError::Missing),
            Some(url) => {
                let http = has_prefix_ignoring_case(url.as_str(), "http://");
                let https = has_prefix_ignoring_case(url.as_str(), "https://");
                if (http || https) && parses_as_url(url.as_str()) {
                    Ok(Config { forward_url: url })
                } else {
                    Err(ConfigError::NotHttpUrl)
                }
            },
        }
    }
}

} // verus!
