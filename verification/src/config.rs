//! Which API key and server addresses a command uses.
use vstd::prelude::*;

verus! {

/// Why no API key could be found.
#[derive(Clone, Copy, Debug, PartialEq, Eq, Structural)]
pub enum ConfigError {
    /// Neither the command line, the environment nor the config file gives a key.
    MissingApiKey,
}

/// The key to use: the one given on the command line or in the environment,
/// else the one saved in the config file.
pub open spec fn chosen_key(given: Option<Seq<char>>, saved: Option<Seq<char>>) -> Option<Seq<char>> {
    match given {
        Some(k) => Some(k),
        None => saved,
    }
}

/// Resolves the API key: a key given on the command line (or through
/// `ARCHIPELAG_API_KEY`) wins over the one saved in the config file.
pub fn resolve_api_key(given: &Option<String>, saved: &Option<String>) -> (res: Result<String, ConfigError>)
    ensures
        res is Ok <==> chosen_key(given.deep_view(), saved.deep_view()) is Some,
        res matches Ok(k) ==> Some(k@) == chosen_key(given.deep_view(), saved.deep_view()),
        res matches Err(e) ==> e == ConfigError::MissingApiKey,
{
    match given {
        Some(k) => Ok(k.clone()),
        None => match saved {
            Some(k) => Ok(k.clone()),
            None => Err(ConfigError::MissingApiKey),
        },
    }
}

/// A setting: the value given on the command line or in the environment,
/// else the one saved in the config file, else its default.
pub open spec fn chosen_setting(given: Option<Seq<char>>, saved: Option<Seq<char>>, default: Seq<char>) -> Seq<char> {
    match given {
        Some(v) => v,
        None => match saved {
            Some(v) => v,
            None => default,
        },
    }
}

/// The API base URL used when none is given or saved.
pub open spec fn default_api_url() -> Seq<char> {
    "https://api.archipelag.io"@
}

/// The NATS server URL used when none is given or saved.
pub open spec fn default_nats_url() -> Seq<char> {
    "nats://sail.archipelag.io:4222"@
}

fn resolve_setting(given: &Option<String>, saved: &Option<String>, default: &str) -> (res: String)
    ensures
        res@ == chosen_setting(given.deep_view(), saved.deep_view(), default@),
{
    match given {
        Some(v) => v.clone(),
        None => match saved {
            Some(v) => v.clone(),
            None => {
                let r = default.to_string();
                proof { vstd::string::to_string_from_display_ensures_for_str(default, r); }
                r
            },
        },
    }
}

/// Resolves the API base URL: the flag (or `ARCHIPELAG_API_URL`), else the
/// config file's `api_url`, else the official API.
pub fn resolve_api_url(given: &Option<String>, saved: &Option<String>) -> (res: String)
    ensures
        res@ == chosen_setting(given.deep_view(), saved.deep_view(), default_api_url()),
{
    resolve_setting(given, saved, "https://api.archipelag.io")
}

/// Resolves the NATS server URL: the flag (or `ARCHIPELAG_NATS_URL`), else
/// the config file's `nats_url`, else the official server.
pub fn resolve_nats_url(given: &Option<String>, saved: &Option<String>) -> (res: String)
    ensures
        res@ == chosen_setting(given.deep_view(), saved.deep_view(), default_nats_url()),
{
    resolve_setting(given, saved, "nats://sail.archipelag.io:4222")
}

} // verus!
