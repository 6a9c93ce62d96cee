//! The request-governance pipeline: response hardening headers, and the
//! composition of the auth guard and the rate limiter in front of the
//! store. The guard runs first, so an auth failure never spends rate
//! budget; for address-keyed limiting either order would be correct, for
//! credential-keyed limiting this order is required.

use vstd::prelude::*;
use vstd::string::{StringExecFns, StrSliceExecFns};
use crate::auth::{authorize, spec_authorize, AuthConfig, AuthOutcome};
use crate::limiter::{elapsed, next_entry, RateLimitKey, RateLimitState};
use crate::text::{spec_starts_with, str_starts_with};

verus! {

/// The hardening headers every response carries, name and value, in a
/// fixed order.
pub fn security_headers() -> (r: Vec<(String, String)>)
    ensures
        r@.len() == 7,
        r@[0].0@ == "X-Content-Type-Options"@ && r@[0].1@ == "nosniff"@,
        r@[1].0@ == "X-Frame-Options"@ && r@[1].1@ == "DENY"@,
        r@[2].0@ == "X-XSS-Protection"@ && r@[2].1@ == "1; mode=block"@,
        r@[3].0@ == "Content-Security-Policy"@ && r@[3].1@
            == "default-src 'none'; frame-ancestors 'none'"@,
        r@[4].0@ == "Cache-Control"@ && r@[4].1@ == "no-store, max-age=0"@,
        r@[5].0@ == "Referrer-Policy"@ && r@[5].1@ == "strict-origin-when-cross-origin"@,
        r@[6].0@ == "Permissions-Policy"@ && r@[6].1@
            == "geolocation=(), camera=(), microphone=()"@,
{
    let mut r: Vec<(String, String)> = Vec::new();
    r.push((String::from_str("X-Content-Type-Options"), String::from_str("nosniff")));
    r.push((String::from_str("X-Frame-Options"), String::from_str("DENY")));
    r.push((String::from_str("X-XSS-Protection"), String::from_str("1; mode=block")));
    r.push(
        (
            String::from_str("Content-Security-Policy"),
            String::from_str("default-src 'none'; frame-ancestors 'none'"),
        ),
    );
    r.push((String::from_str("Cache-Control"), String::from_str("no-store, max-age=0")));
    r.push(
        (String::from_str("Referrer-Policy"), String::from_str("strict-origin-when-cross-origin")),
    );
    r.push(
        (
            String::from_str("Permissions-Policy"),
            String::from_str("geolocation=(), camera=(), microphone=()"),
        ),
    );
    r
}

/// Retry advice in whole seconds, floored at one: a client told to retry
/// is never told to wait zero time units.
pub open spec fn spec_retry_after_secs(retry_ms: u64) -> u64 {
    if retry_ms / 1000 >= 1 {
        (retry_ms / 1000) as u64
    } else {
        1
    }
}

/// Turns a rejection's remaining window time into whole seconds, floored
/// at one.
pub fn retry_after_secs(retry_ms: u64) -> (r: u64)
    ensures
        r == spec_retry_after_secs(retry_ms),
{
    let secs = retry_ms / 1000;
    if secs >= 1 {
        secs
    } else {
        1
    }
}

/// A credential with every leading repetition of `prefix` removed, as
/// str::trim_start_matches would leave it.
pub open spec fn spec_strip_repeated(s: Seq<char>, prefix: Seq<char>) -> Seq<char>
    decreases s.len(),
{
    if prefix.len() > 0 && spec_starts_with(s, prefix) {
        spec_strip_repeated(s.skip(prefix.len() as int), prefix)
    } else {
        s
    }
}

/// Removes every leading repetition of `prefix` from `s`.
pub fn strip_repeated<'a>(s: &'a str, prefix: &str) -> (r: &'a str)
    ensures
        r@ == spec_strip_repeated(s@, prefix@),
    decreases s@.len(),
{
    let prefix_len = prefix.unicode_len();
    if prefix_len == 0 {
        return s;
    }
    let mut cur: &str = s;
    loop
        invariant
            prefix_len == prefix@.len(),
            prefix_len > 0,
            spec_strip_repeated(cur@, prefix@) == spec_strip_repeated(s@, prefix@),
        decreases cur@.len(),
    {
        if !str_starts_with(cur, prefix) {
            return cur;
        }
        let cur_len = cur.unicode_len();
        let rest = cur.substring_char(prefix_len, cur_len);
        proof {
            assert(rest@ =~= cur@.skip(prefix@.len() as int));
        }
        cur = rest;
    }
}

/// The key one request is counted under: the client address, or for
/// credential-keyed limiting the bearer credential when one was sent.
pub open spec fn spec_rate_key(
    strategy: RateLimitKey,
    auth_header: Option<Seq<char>>,
    ip_key: Seq<char>,
) -> Seq<char> {
    match strategy {
        RateLimitKey::ByIp => ip_key,
        RateLimitKey::ByApiKey => match auth_header {
            Some(h) => spec_strip_repeated(h, "Bearer "@),
            None => ip_key,
        },
    }
}

/// What the pipeline decides for one request.
#[derive(Clone, Copy, Debug, PartialEq, Eq, Structural)]
pub enum PipelineDecision {
    /// The auth guard rejected the request; no rate budget was spent.
    AuthRejected {
        /// Which of the guard's rejections applies.
        outcome: AuthOutcome,
    },
    /// The rate limiter rejected the request.
    RateLimited {
        /// Whole seconds until the client should retry, at least one.
        retry_after_secs: u64,
        /// The configured limit, for header reporting.
        limit: u32,
    },
    /// The request may proceed to the store.
    Admitted {
        /// Requests left in this window, for header reporting.
        remaining: u32,
        /// The configured limit, for header reporting.
        limit: u32,
    },
}

/// Decides one request: the auth guard first, then the rate limiter keyed
/// by the configured strategy. `auth_header` is the credential header's
/// value, `ip_key` names the client's network address.
pub fn govern(
    auth: &AuthConfig,
    limiter: &mut RateLimitState,
    path: &str,
    auth_header: Option<&str>,
    ip_key: &str,
    now_ms: u64,
) -> (r: PipelineDecision)
    requires
        old(limiter).wf(),
    ensures
        final(limiter).wf(),
        final(limiter).spec_config() == old(limiter).spec_config(),
        ({
            let verdict = spec_authorize(*auth, path@, match auth_header {
                Some(h) => Some(h@),
                None => None,
            });
            let key = spec_rate_key(old(limiter).spec_config().key_strategy, match auth_header {
                Some(h) => Some(h@),
                None => None,
            }, ip_key@);
            let e = next_entry(
                old(limiter).entries_view(),
                old(limiter).spec_config().window_ms,
                key,
                now_ms,
            );
            let max = old(limiter).spec_config().max_requests;
            if verdict != AuthOutcome::Admitted {
                r == (PipelineDecision::AuthRejected { outcome: verdict }) && *final(limiter)
                    == *old(limiter)
            } else {
                final(limiter).entries_view() == old(limiter).entries_view().insert(key, e) && (
                if e.count <= max {
                    r == (PipelineDecision::Admitted { remaining: (max - e.count) as u32, limit: max })
                } else {
                    r == (PipelineDecision::RateLimited {
                        retry_after_secs: spec_retry_after_secs(
                            (old(limiter).spec_config().window_ms - elapsed(
                                now_ms,
                                e.window_start_ms,
                            )) as u64,
                        ),
                        limit: max,
                    })
                })
            }
        }),
{
    let verdict = authorize(auth, path, auth_header);
    if !matches!(verdict, AuthOutcome::Admitted) {
        return PipelineDecision::AuthRejected { outcome: verdict };
    }
    let key: String = match limiter.get_config().key_strategy {
        RateLimitKey::ByIp => String::from_str(ip_key),
        RateLimitKey::ByApiKey => match auth_header {
            Some(h) => String::from_str(strip_repeated(h, "Bearer ")),
            None => String::from_str(ip_key),
        },
    };
    let limit = limiter.get_config().max_requests;
    match limiter.check_and_increment(key, now_ms) {
        Ok((remaining, limit)) => PipelineDecision::Admitted { remaining, limit },
        Err((_count, retry_ms)) => PipelineDecision::RateLimited {
            retry_after_secs: retry_after_secs(retry_ms),
            limit,
        },
    }
}

} // verus!
