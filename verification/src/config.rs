//! The configuration the surrounding process loads and hands in: listener
//! settings, allow-lists, credentials, tokens, TLS material paths. Tokens
//! are hashed once here, so the plaintext never persists as a comparison
//! set.

use vstd::prelude::*;

use crate::digest::{hash_tokens, sha256_hex_of};
use crate::text::spec_trim;

verus! {

/// Command-line options: an optional path to the configuration file.
#[derive(Debug, Clone)]
pub struct Opt {
    pub config: Option<String>,
}

/// Per-protocol authentication settings: `login:password` entries and
/// secret tokens (plaintext as loaded, digests once hashed).
#[derive(Debug, Clone)]
pub struct AuthConfig {
    pub credentials: Vec<String>,
    pub tokens: Vec<String>,
}

/// TLS material paths for the TLS-terminating listener.
#[derive(Debug, Clone)]
pub struct TlsConfig {
    pub cert: Option<String>,
    pub key: Option<String>,
}

/// The plaintext listener's settings.
#[derive(Debug, Clone)]
pub struct HttpConfig {
    pub enabled: bool,
    pub port: u16,
    pub allowed_hosts: Vec<String>,
    pub auth: AuthConfig,
}

/// The TLS listener's settings.
#[derive(Debug, Clone)]
pub struct HttpsConfig {
    pub enabled: bool,
    pub port: u16,
    pub allowed_hosts: Vec<String>,
    pub auth: AuthConfig,
    pub tls: TlsConfig,
}

/// The whole configuration: one section per listener.
#[derive(Debug, Clone)]
pub struct ProxyServerConfig {
    pub http: HttpConfig,
    pub https: HttpsConfig,
}

/// Each token list replaced by the digests of its trimmed entries.
pub open spec fn tokens_hashed(before: Seq<String>, after: Seq<String>) -> bool {
    after.len() == before.len() && forall|i: int|
        0 <= i < before.len() ==> #[trigger] after[i]@ == sha256_hex_of(spec_trim(before[i]@))
}

/// A loaded configuration made ready for the engine: both protocols'
/// token lists are hashed, and everything else is kept as it stands.
pub fn hash_config_tokens(config: ProxyServerConfig) -> (r: ProxyServerConfig)
    ensures
        r.http.enabled == config.http.enabled,
        r.http.port == config.http.port,
        r.http.allowed_hosts == config.http.allowed_hosts,
        r.http.auth.credentials == config.http.auth.credentials,
        tokens_hashed(config.http.auth.tokens@, r.http.auth.tokens@),
        r.https.enabled == config.https.enabled,
        r.https.port == config.https.port,
        r.https.allowed_hosts == config.https.allowed_hosts,
        r.https.auth.credentials == config.https.auth.credentials,
        tokens_hashed(config.https.auth.tokens@, r.https.auth.tokens@),
        r.https.tls == config.https.tls,
{
    let http_tokens = hash_tokens(&config.http.auth.tokens);
    let https_tokens = hash_tokens(&config.https.auth.tokens);
    ProxyServerConfig {
        http: HttpConfig {
            enabled: config.http.enabled,
            port: config.http.port,
            allowed_hosts: config.http.allowed_hosts,
            auth: AuthConfig { credentials: config.http.auth.credentials, tokens: http_tokens },
        },
        https: HttpsConfig {
            enabled: config.https.enabled,
            port: config.https.port,
            allowed_hosts: config.https.allowed_hosts,
            auth: AuthConfig { credentials: config.https.auth.credentials, tokens: https_tokens },
            tls: config.https.tls,
        },
    }
}

} // verus!
