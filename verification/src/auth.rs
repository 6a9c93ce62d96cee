//! API-key auth guard: a public-path allowlist, and credential checking
//! against a configured key set. With no keys configured the guard admits
//! everything.

use vstd::prelude::*;
use vstd::string::{StringExecFns, StrSliceExecFns};
use crate::text::{contains_str, seq_has_str, spec_starts_with, str_starts_with};

verus! {

/// Configuration of the auth guard.
#[derive(Debug)]
pub struct AuthConfig {
    /// The valid API keys.
    pub api_keys: Vec<String>,
    /// The header the credential is read from.
    pub header_name: String,
    /// The prefix expected before the key.
    pub prefix: String,
    /// Paths that need no credential.
    pub public_paths: Vec<String>,
}

impl Default for AuthConfig {
    /// No keys, bearer credentials in the `Authorization` header, and the
    /// health and readiness probes public.
    fn default() -> (r: Self)
        ensures
            r.api_keys@.len() == 0,
            r.header_name@ == "Authorization"@,
            r.prefix@ == "Bearer "@,
            r.public_paths@.len() == 2,
            r.public_paths@[0]@ == "/health"@,
            r.public_paths@[1]@ == "/ready"@,
    {
        let mut public_paths: Vec<String> = Vec::new();
        public_paths.push(String::from_str("/health"));
        public_paths.push(String::from_str("/ready"));
        AuthConfig {
            api_keys: Vec::new(),
            header_name: String::from_str("Authorization"),
            prefix: String::from_str("Bearer "),
            public_paths,
        }
    }
}

impl AuthConfig {
    /// The defaults with the given API keys.
    pub fn with_keys(keys: Vec<String>) -> (r: Self)
        ensures
            r.api_keys@ == keys@,
            r.header_name@ == "Authorization"@,
            r.prefix@ == "Bearer "@,
            r.public_paths@.len() == 2,
            r.public_paths@[0]@ == "/health"@,
            r.public_paths@[1]@ == "/ready"@,
    {
        let base = AuthConfig::default();
        AuthConfig {
            api_keys: keys,
            header_name: base.header_name,
            prefix: base.prefix,
            public_paths: base.public_paths,
        }
    }

    /// Adds a path that needs no credential.
    pub fn add_public_path(self, path: String) -> (r: Self)
        ensures
            r.api_keys@ == self.api_keys@,
            r.header_name@ == self.header_name@,
            r.prefix@ == self.prefix@,
            r.public_paths@ == self.public_paths@.push(path),
    {
        let mut public_paths = self.public_paths;
        public_paths.push(path);
        AuthConfig {
            api_keys: self.api_keys,
            header_name: self.header_name,
            prefix: self.prefix,
            public_paths,
        }
    }

    /// Whether a request to this path must present a credential.
    pub fn requires_auth(&self, path: &str) -> (r: bool)
        ensures
            r == !seq_has_str(self.public_paths@, path@),
    {
        !contains_str(&self.public_paths, path)
    }

    /// Whether this key is one of the configured API keys.
    pub fn validate_key(&self, key: &str) -> (r: bool)
        ensures
            r == seq_has_str(self.api_keys@, key@),
    {
        contains_str(&self.api_keys, key)
    }

    /// Whether the guard checks credentials at all; it does exactly when
    /// some API key is configured.
    pub fn is_enabled(&self) -> (r: bool)
        ensures
            r == (self.api_keys@.len() > 0),
    {
        self.api_keys.len() > 0
    }
}

/// The guard's shared state: the configuration, behind a shared handle so
/// every request handler can consult it.
pub struct AuthState {
    /// The configuration the guard enforces.
    pub config: std::sync::Arc<AuthConfig>,
}

/// What the guard decides for one request.
#[derive(Clone, Copy, Debug, PartialEq, Eq, Structural)]
pub enum AuthOutcome {
    /// The request passes the guard.
    Admitted,
    /// Rejected: the credential header is missing.
    MissingHeader,
    /// Rejected: the header does not start with the expected prefix.
    MalformedHeader,
    /// Rejected: the presented key is not configured. Unlike the other
    /// two rejections this one signals active probing, not client
    /// misconfiguration.
    InvalidKey,
}

/// What the guard decides, as a function of the configuration, the path,
/// and the credential header: public paths and a disabled guard admit
/// everything; otherwise the header must exist, carry the prefix, and
/// hold a configured key.
pub open spec fn spec_authorize(c: AuthConfig, path: Seq<char>, header: Option<Seq<char>>) -> AuthOutcome {
    if seq_has_str(c.public_paths@, path) {
        AuthOutcome::Admitted
    } else if c.api_keys@.len() == 0 {
        AuthOutcome::Admitted
    } else {
        match header {
            None => AuthOutcome::MissingHeader,
            Some(h) => if !spec_starts_with(h, c.prefix@) {
                AuthOutcome::MalformedHeader
            } else if seq_has_str(c.api_keys@, h.skip(c.prefix@.len() as int)) {
                AuthOutcome::Admitted
            } else {
                AuthOutcome::InvalidKey
            },
        }
    }
}

/// Decides one request against the guard's configuration. `header` is the
/// value of the configured credential header, if the request carried one.
pub fn authorize(config: &AuthConfig, path: &str, header: Option<&str>) -> (r: AuthOutcome)
    ensures
        r == spec_authorize(*config, path@, match header {
            Some(h) => Some(h@),
            None => None,
        }),
{
    if !config.requires_auth(path) {
        return AuthOutcome::Admitted;
    }
    if !config.is_enabled() {
        return AuthOutcome::Admitted;
    }
    match header {
        None => AuthOutcome::MissingHeader,
        Some(h) => {
            if !str_starts_with(h, config.prefix.as_str()) {
                return AuthOutcome::MalformedHeader;
            }
            let prefix_len = config.prefix.as_str().unicode_len();
            let h_len = h.unicode_len();
            let key = h.substring_char(prefix_len, h_len);
            proof {
                assert(key@ =~= h@.skip(config.prefix@.len() as int));
            }
            if config.validate_key(key) {
                AuthOutcome::Admitted
            } else {
                AuthOutcome::InvalidKey
            }
        },
    }
}

} // verus!
