//! The admission control chain: an ordered, fail-closed decision over an
//! inbound request, taken before any relay work begins.
//!
//! Three checks run in a fixed order — destination host, Basic credentials,
//! secret-token digest — and each is skipped when its allow-set is empty.
//! The first failing check rejects the request; a rejected request never
//! reaches the dispatcher or a relay.

use vstd::prelude::*;

use crate::codec::{any_credential_matches, cred_encoding, is_credentials_allowed};
use crate::glob::{glob_match, is_host_allowed, matches_any};
use crate::text::{contains_sub, lower, str_eq_lower, str_views};

verus! {

/// The immutable per-process admission policy: glob patterns for allowed
/// destination hosts, `login:password` credential entries, and SHA-256 hex
/// digests of allowed secret tokens.
pub struct ProxyPolicy {
    pub allowed_hosts: Vec<String>,
    pub allowed_credentials: Vec<String>,
    pub allowed_token_digests: Vec<String>,
}

impl ProxyPolicy {
    pub open spec fn hosts_view(&self) -> Seq<Seq<char>> {
        str_views(self.allowed_hosts@)
    }

    pub open spec fn creds_view(&self) -> Seq<Seq<char>> {
        str_views(self.allowed_credentials@)
    }

    pub open spec fn digests_view(&self) -> Seq<Seq<char>> {
        str_views(self.allowed_token_digests@)
    }
}

/// The terminal value of the chain: admit the request, or answer it with
/// the given status (and, for credential failures, a challenge header) and
/// close.
#[derive(PartialEq, Eq, Structural, Clone, Copy, Debug)]
pub enum AdmissionOutcome {
    Allow,
    Reject { status: u16, challenge: bool },
}

/// The views of a header list: names and values as character sequences.
pub open spec fn headers_views(hs: Seq<(String, String)>) -> Seq<(Seq<char>, Seq<char>)> {
    hs.map_values(|p: (String, String)| (p.0@, p.1@))
}

/// The value of the first header whose name, compared case-insensitively,
/// is `name` (itself given in lower case).
pub open spec fn spec_find_header(hs: Seq<(Seq<char>, Seq<char>)>, name: Seq<char>) -> Option<
    Seq<char>,
>
    decreases hs.len(),
{
    if hs.len() == 0 {
        None
    } else if lower(hs[0].0) == name {
        Some(hs[0].1)
    } else {
        spec_find_header(hs.drop_first(), name)
    }
}

/// Case-insensitive header lookup; `name` must be given in lower case.
pub fn find_header(headers: &Vec<(String, String)>, name: &str) -> (r: Option<String>)
    ensures
        match r {
            Some(v) => spec_find_header(headers_views(headers@), name@) == Some(v@),
            None => spec_find_header(headers_views(headers@), name@) is None,
        },
{
    let ghost hv = headers_views(headers@);
    let n = headers.len();
    assert(hv.skip(0) =~= hv);
    let mut i: usize = 0;
    while i < n
        invariant
            hv == headers_views(headers@),
            n == headers@.len(),
            i <= n,
            spec_find_header(hv, name@) == spec_find_header(hv.skip(i as int), name@),
        decreases n - i,
    {
        proof {
            assert(hv.skip(i as int)[0] == hv[i as int]);
            assert(hv.skip(i as int).drop_first() =~= hv.skip(i as int + 1));
        }
        if str_eq_lower(headers[i].0.as_str(), name) {
            return Some(headers[i].1.clone());
        }
        i = i + 1;
    }
    assert(hv.skip(n as int) =~= Seq::<(Seq<char>, Seq<char>)>::empty());
    None
}

/// The host check: with no configured patterns every host passes;
/// otherwise the requested host must match one of them.
pub open spec fn host_check_passes(patterns: Seq<Seq<char>>, host: Seq<char>) -> bool {
    patterns.len() == 0 || matches_any(patterns, host)
}

/// The credential check: with no configured credentials every request
/// passes; otherwise a `Proxy-Authorization` header must be present and
/// contain the base64 encoding of a configured entry.
pub open spec fn cred_check_passes(
    creds: Seq<Seq<char>>,
    headers: Seq<(Seq<char>, Seq<char>)>,
) -> bool {
    creds.len() == 0 || match spec_find_header(headers, "proxy-authorization"@) {
        Some(v) => any_credential_matches(v, creds),
        None => false,
    }
}

/// The token check: with no configured digests every request passes;
/// otherwise an `x-auth-token` header must be present and equal one
/// configured digest exactly. Tokens are never compared as plaintext.
pub open spec fn token_check_passes(
    digests: Seq<Seq<char>>,
    headers: Seq<(Seq<char>, Seq<char>)>,
) -> bool {
    digests.len() == 0 || match spec_find_header(headers, "x-auth-token"@) {
        Some(v) => digests.contains(v),
        None => false,
    }
}

/// The whole chain, in its fixed order: host, then credentials, then
/// token. Host and token failures answer 400 with no detail; credential
/// failures answer 407 with a challenge.
pub open spec fn decide_spec(
    patterns: Seq<Seq<char>>,
    creds: Seq<Seq<char>>,
    digests: Seq<Seq<char>>,
    host: Seq<char>,
    headers: Seq<(Seq<char>, Seq<char>)>,
) -> AdmissionOutcome {
    if !host_check_passes(patterns, host) {
        AdmissionOutcome::Reject { status: 400, challenge: false }
    } else if !cred_check_passes(creds, headers) {
        AdmissionOutcome::Reject { status: 407, challenge: true }
    } else if !token_check_passes(digests, headers) {
        AdmissionOutcome::Reject { status: 400, challenge: false }
    } else {
        AdmissionOutcome::Allow
    }
}

/// An empty `allowed_hosts` set admits every host; a non-empty set rejects
/// any host that matches none of its patterns, with a bad-request status
/// and no challenge.
pub proof fn lemma_host_admission(
    patterns: Seq<Seq<char>>,
    creds: Seq<Seq<char>>,
    digests: Seq<Seq<char>>,
    host: Seq<char>,
    headers: Seq<(Seq<char>, Seq<char>)>,
)
    ensures
        patterns.len() == 0 ==> host_check_passes(patterns, host),
        (patterns.len() > 0 && (forall|k: int|
            0 <= k < patterns.len() ==> !glob_match(#[trigger] patterns[k], host)))
            ==> decide_spec(patterns, creds, digests, host, headers)
            == (AdmissionOutcome::Reject { status: 400, challenge: false }),
{
}

/// A request presenting `Proxy-Authorization: Basic base64(cred)` is
/// admitted exactly when `cred` is a configured credential, provided no
/// other configured entry's encoding happens to occur inside that header
/// value; when the credential set is non-empty and `cred` is not in it,
/// the outcome is a 407 with a challenge. The host stage must pass and the
/// token stage must not reject, so that the credential stage decides.
pub proof fn lemma_credential_admission(
    patterns: Seq<Seq<char>>,
    creds: Seq<Seq<char>>,
    digests: Seq<Seq<char>>,
    cred: Seq<char>,
    host: Seq<char>,
    headers: Seq<(Seq<char>, Seq<char>)>,
)
    requires
        spec_find_header(headers, "proxy-authorization"@) == Some(
            "Basic "@ + cred_encoding(cred),
        ),
        host_check_passes(patterns, host),
        token_check_passes(digests, headers),
        forall|k: int|
            0 <= k < creds.len() && contains_sub(
                "Basic "@ + cred_encoding(cred),
                #[trigger] cred_encoding(creds[k]),
            ) ==> creds[k] == cred,
    ensures
        decide_spec(patterns, creds, digests, host, headers) == AdmissionOutcome::Allow <==> (
        creds.len() == 0 || creds.contains(cred)),
        (creds.len() > 0 && !creds.contains(cred)) ==> decide_spec(
            patterns,
            creds,
            digests,
            host,
            headers,
        ) == (AdmissionOutcome::Reject { status: 407, challenge: true }),
{
    let v = "Basic "@ + cred_encoding(cred);
    let enc = cred_encoding(cred);
    if creds.len() > 0 {
        if creds.contains(cred) {
            let k = choose|k: int| 0 <= k < creds.len() && creds[k] == cred;
            reveal_strlit("Basic ");
            assert(v.subrange(6, 6 + enc.len() as int) =~= enc);
            assert(contains_sub(v, cred_encoding(creds[k])));
            assert(any_credential_matches(v, creds));
        } else {
            if any_credential_matches(v, creds) {
                let k = choose|k: int|
                    0 <= k < creds.len() && contains_sub(v, #[trigger] cred_encoding(creds[k]));
                assert(creds[k] == cred);
                assert(creds.contains(cred));
                assert(false);
            }
        }
    }
}

/// A request presenting a token header is admitted exactly when the value
/// equals a configured digest; with a non-empty digest set, a value that
/// is not a digest — in particular any plaintext whose length is not the
/// 64 characters of a SHA-256 hex digest — is rejected with a bad-request
/// status. The host and credential stages must not reject, so that the
/// token stage decides.
pub proof fn lemma_token_admission(
    patterns: Seq<Seq<char>>,
    creds: Seq<Seq<char>>,
    digests: Seq<Seq<char>>,
    v: Seq<char>,
    host: Seq<char>,
    headers: Seq<(Seq<char>, Seq<char>)>,
)
    requires
        host_check_passes(patterns, host),
        cred_check_passes(creds, headers),
        spec_find_header(headers, "x-auth-token"@) == Some(v),
        forall|k: int| 0 <= k < digests.len() ==> #[trigger] digests[k].len() == 64,
    ensures
        decide_spec(patterns, creds, digests, host, headers) == AdmissionOutcome::Allow <==> (
        digests.len() == 0 || digests.contains(v)),
        (digests.len() > 0 && !digests.contains(v)) ==> decide_spec(
            patterns,
            creds,
            digests,
            host,
            headers,
        ) == (AdmissionOutcome::Reject { status: 400, challenge: false }),
        (digests.len() > 0 && v.len() != 64) ==> decide_spec(patterns, creds, digests, host, headers)
            == (AdmissionOutcome::Reject { status: 400, challenge: false }),
{
    if digests.len() > 0 && v.len() != 64 {
        if digests.contains(v) {
            let k = choose|k: int| 0 <= k < digests.len() && digests[k] == v;
            assert(digests[k].len() == 64);
            assert(false);
        }
    }
}

fn check_allowed_hosts(policy: &ProxyPolicy, host: &str) -> (r: bool)
    ensures
        r == host_check_passes(policy.hosts_view(), host@),
{
    if policy.allowed_hosts.len() == 0 {
        true
    } else {
        is_host_allowed(host, &policy.allowed_hosts)
    }
}

fn check_auth_credentials(policy: &ProxyPolicy, headers: &Vec<(String, String)>) -> (r: bool)
    ensures
        r == cred_check_passes(policy.creds_view(), headers_views(headers@)),
{
    if policy.allowed_credentials.len() == 0 {
        return true;
    }
    match find_header(headers, "proxy-authorization") {
        Some(v) => is_credentials_allowed(v.as_str(), &policy.allowed_credentials),
        None => false,
    }
}

fn check_auth_tokens(policy: &ProxyPolicy, headers: &Vec<(String, String)>) -> (r: bool)
    ensures
        r == token_check_passes(policy.digests_view(), headers_views(headers@)),
{
    if policy.allowed_token_digests.len() == 0 {
        return true;
    }
    let found = find_header(headers, "x-auth-token");
    match found {
        Some(v) => {
            let n = policy.allowed_token_digests.len();
            let mut i: usize = 0;
            while i < n
                invariant
                    n == policy.allowed_token_digests@.len(),
                    i <= n,
                    n > 0,
                    spec_find_header(headers_views(headers@), "x-auth-token"@) == Some(v@),
                    forall|k: int| 0 <= k < i ==> #[trigger] policy.digests_view()[k] != v@,
                decreases n - i,
            {
                if crate::text::str_eq(policy.allowed_token_digests[i].as_str(), v.as_str()) {
                    assert(policy.digests_view()[i as int] == v@);
                    assert(policy.digests_view().contains(v@));
                    return true;
                }
                i = i + 1;
            }
            assert(!policy.digests_view().contains(v@));
            false
        },
        None => false,
    }
}

/// One admission decision for one inbound request, per the fixed
/// three-step chain.
pub fn decide(policy: &ProxyPolicy, host: &str, headers: &Vec<(String, String)>) -> (r:
    AdmissionOutcome)
    ensures
        r == decide_spec(
            policy.hosts_view(),
            policy.creds_view(),
            policy.digests_view(),
            host@,
            headers_views(headers@),
        ),
{
    if !check_allowed_hosts(policy, host) {
        AdmissionOutcome::Reject { status: 400, challenge: false }
    } else if !check_auth_credentials(policy, headers) {
        AdmissionOutcome::Reject { status: 407, challenge: true }
    } else if !check_auth_tokens(policy, headers) {
        AdmissionOutcome::Reject { status: 400, challenge: false }
    } else {
        AdmissionOutcome::Allow
    }
}

} // verus!
