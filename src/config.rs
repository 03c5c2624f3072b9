use vstd::prelude::*;

use crate::text::starts_with_text;

verus! {

/// The service address used when none is configured.
pub const DEFAULT_API_URL: &'static str = "http://localhost:8080";

pub open spec fn http_scheme() -> Seq<char> {
    seq!['h', 't', 't', 'p', ':', '/', '/']
}

pub open spec fn https_scheme() -> Seq<char> {
    seq!['h', 't', 't', 'p', 's', ':', '/', '/']
}

/// The address names an HTTP or HTTPS service.
pub open spec fn is_valid_api_url(s: Seq<char>) -> bool {
    http_scheme().is_prefix_of(s) || https_scheme().is_prefix_of(s)
}

/// Where the memory service is reached.
pub struct Config {
    pub api_url: String,
}

/// A configured service address that is not an HTTP(S) URL.
pub struct ConfigError {
    /// The rejected value.
    pub value: String,
    /// What went wrong and how to correct it.
    pub message: String,
}

pub open spec fn config_error_message(v: Seq<char>) -> Seq<char> {
    "Invalid API URL: "@ + v + ". Must start with http:// or https://"@
}

impl Config {
    /// The configuration for the configured address `value`, or for the
    /// local default when none is set.
    pub fn resolve(value: Option<String>) -> (r: Result<Config, ConfigError>)
        ensures
            ({
                let v = match value {
                    Some(s) => s@,
                    None => DEFAULT_API_URL@,
                };
                match r {
                    Ok(c) => is_valid_api_url(v) && c.api_url@ == v,
                    Err(e) => !is_valid_api_url(v) && e.value@ == v && e.message@
                        == config_error_message(v),
                }
            }),
    {
        let url = match value {
            Some(s) => s,
            None => String::from_str(DEFAULT_API_URL),
        };
        proof {
            reveal_strlit("http://");
            reveal_strlit("https://");
        }
        let http = starts_with_text(url.as_str(), "http://");
        let https = starts_with_text(url.as_str(), "https://");
        proof {
            assert("http://"@ =~= http_scheme());
            assert("https://"@ =~= https_scheme());
        }
        if http || https {
            Ok(Config { api_url: url })
        } else {
            let mut message = String::from_str("Invalid API URL: ");
            message.append(url.as_str());
            message.append(". Must start with http:// or https://");
            Err(ConfigError { value: url, message })
        }
    }

    /// The base URL of the service.
    pub fn api_url(&self) -> (r: &str)
        ensures
            r@ == self.api_url@,
    {
        self.api_url.as_str()
    }
}

} // verus!
