use vstd::prelude::*;

use crate::decode::req_string;
use crate::json::{parse_json, parsed_json};

verus! {

// ---------------------------------------------------------------------------
// Configuration
//
// One value, the service URL, read from a small JSON file kept per user.
// Reading and writing the file is the caller's business; this module owns
// the value, its default, and the file format.
// ---------------------------------------------------------------------------

/// Client-side configuration: where the transcription service listens.
#[derive(Debug, Clone, PartialEq)]
pub struct Config {
    pub service_url: String,
}

/// The URL used when no configuration file exists yet.
pub open spec fn default_service_url() -> Seq<char> {
    "http://localhost:9673"@
}

impl Default for Config {
    /// The configuration a fresh installation starts with.
    fn default() -> (r: Config)
        ensures
            r.service_url@ == default_service_url(),
    {
        Config { service_url: String::from_str("http://localhost:9673") }
    }
}

impl Config {
    /// A configuration pointing at the given service URL.
    pub fn with_url(service_url: String) -> (r: Config)
        ensures
            r.service_url == service_url,
    {
        Config { service_url }
    }
}

/// The service URL a configuration file holds, if the file is well formed.
pub open spec fn config_of(text: Seq<char>) -> Option<Seq<char>> {
    match parsed_json(text) {
        None => None,
        Some(val) => req_string(val, "service_url"@),
    }
}

/// Decode a configuration file's text.
pub fn decode_config(text: &str) -> (r: Option<Config>)
    ensures
        r is Some <==> config_of(text@) is Some,
        r is Some ==> (r->Some_0).service_url@ == config_of(text@)->Some_0,
{
    let value = match parse_json(text) {
        Some(v) => v,
        None => {
            return None;
        },
    };
    match crate::json::json_get(&value, "service_url") {
        Some(f) => match crate::json::json_as_str(f) {
            Some(s) => Some(Config { service_url: String::from_str(s) }),
            None => None,
        },
        None => None,
    }
}

/// The text written to a fresh configuration file: the default
/// configuration, serialized the way the decoder reads it back.
pub fn default_config_text() -> (r: String)
    ensures
        r@ == "{\n  \"service_url\": \"http://localhost:9673\"\n}"@,
{
    String::from_str("{\n  \"service_url\": \"http://localhost:9673\"\n}")
}

} // verus!
