use vstd::prelude::*;
use vstd::string::StrSliceExecFns;

use crate::properties;

verus! {

/// Where the web front end finds its TLS key and certificate chain.
pub struct TlsConfig {
    pub key: String,
    pub chain: String,
}

/// Why a configuration file's values were refused.
#[derive(Debug, Clone, PartialEq, Eq)]
pub enum ConfigValidationError {
    /// The worlds path is unusable; holds the reason.
    WorldsPath(String),
    /// The users file path is unusable; holds the reason.
    UsersFilePath(String),
    /// The base URL is not served over HTTP(S); holds the URL.
    InvalidBaseUrl(String),
    /// The server properties path is unusable; holds it.
    PropertiesPath(String),
    /// The server properties could not be loaded.
    LoadProperties(properties::Error),
    /// The TLS options are inconsistent.
    Tls,
}

/// Shortest accepted password when the configuration names none.
pub fn default_min_password_len() -> (r: u8)
    ensures
        r == 10,
{
    10
}

/// Longest accepted password when the configuration names none.
pub fn default_max_password_len() -> (r: u8)
    ensures
        r == 128,
{
    128
}

/// TLS is on when both the key and the chain are given, off when neither
/// is; one without the other is refused.
pub fn resolve_tls_config(key: Option<String>, chain: Option<String>) -> (r: Result<
    Option<TlsConfig>,
    ConfigValidationError,
>)
    ensures
        (key is Some && chain is Some) ==> r is Ok && r->Ok_0 is Some && r->Ok_0->Some_0.key@
            == key->Some_0@ && r->Ok_0->Some_0.chain@ == chain->Some_0@,
        (key is None && chain is None) ==> r is Ok && r->Ok_0 is None,
        (key is Some) != (chain is Some) ==> r == Err::<Option<TlsConfig>, _>(
            ConfigValidationError::Tls,
        ),
{
    match (key, chain) {
        (Some(key), Some(chain)) => Ok(Some(TlsConfig { key, chain })),
        (None, None) => Ok(None),
        _ => Err(ConfigValidationError::Tls),
    }
}

/// Whether a URL scheme names HTTP or HTTPS: it starts with `http`.
pub open spec fn is_http_scheme(scheme: Seq<char>) -> bool {
    scheme.len() >= 4 && scheme.subrange(0, 4) == seq!['h', 't', 't', 'p']
}

/// Accepts the base URL `url`, whose scheme is `scheme`, when the scheme
/// starts with `http`.
pub fn check_base_url(url: String, scheme: &str) -> (r: Result<String, ConfigValidationError>)
    ensures
        is_http_scheme(scheme@) ==> r is Ok && r->Ok_0@ == url@,
        !is_http_scheme(scheme@) ==> r == Err::<String, _>(
            ConfigValidationError::InvalidBaseUrl(url),
        ),
{
    let n = scheme.unicode_len();
    if n >= 4 && scheme.get_char(0) == 'h' && scheme.get_char(1) == 't' && scheme.get_char(2)
        == 't' && scheme.get_char(3) == 'p' {
        assert(scheme@.subrange(0, 4) =~= seq!['h', 't', 't', 'p']);
        Ok(url)
    } else {
        proof {
            if n >= 4 {
                assert(scheme@.subrange(0, 4)[0] == scheme@[0]);
                assert(scheme@.subrange(0, 4)[1] == scheme@[1]);
                assert(scheme@.subrange(0, 4)[2] == scheme@[2]);
                assert(scheme@.subrange(0, 4)[3] == scheme@[3]);
            }
        }
        Err(ConfigValidationError::InvalidBaseUrl(url))
    }
}

} // verus!
