use proxerver::admission::{decide, find_header, AdmissionOutcome, ProxyPolicy};
use proxerver::codec::{base64_encode, is_credentials_allowed};
use proxerver::digest::{hash_tokens, to_sha256};

const SECRET_DIGEST: &str = "2bb80d537b1da3e38bd30361aa855686bde0eacd7162fef6a25fe97bf527a25b";

fn policy(hosts: &[&str], creds: &[&str], digests: &[&str]) -> ProxyPolicy {
    ProxyPolicy {
        allowed_hosts: hosts.iter().map(|s| s.to_string()).collect(),
        allowed_credentials: creds.iter().map(|s| s.to_string()).collect(),
        allowed_token_digests: digests.iter().map(|s| s.to_string()).collect(),
    }
}

fn headers(entries: &[(&str, &str)]) -> Vec<(String, String)> {
    entries.iter().map(|(k, v)| (k.to_string(), v.to_string())).collect()
}

#[test]
fn open_policy_admits_everything() {
    let p = policy(&[], &[], &[]);
    assert_eq!(decide(&p, "anything.example", &headers(&[])), AdmissionOutcome::Allow);
}

#[test]
fn empty_host_set_admits_every_host() {
    let p = policy(&[], &["user:pass"], &[]);
    let h = headers(&[("proxy-authorization", "Basic dXNlcjpwYXNz")]);
    assert_eq!(decide(&p, "no-restriction.example", &h), AdmissionOutcome::Allow);
}

#[test]
fn unmatched_host_is_rejected_with_bad_request() {
    let p = policy(&["*.example.com"], &[], &[]);
    assert_eq!(
        decide(&p, "evil.com", &headers(&[])),
        AdmissionOutcome::Reject { status: 400, challenge: false }
    );
    assert_eq!(decide(&p, "api.example.com", &headers(&[])), AdmissionOutcome::Allow);
}

#[test]
fn base64_credential_is_required_and_sufficient() {
    let p = policy(&[], &["user:pass"], &[]);
    let good = headers(&[("proxy-authorization", "Basic dXNlcjpwYXNz")]);
    assert_eq!(decide(&p, "h", &good), AdmissionOutcome::Allow);

    let missing = headers(&[]);
    assert_eq!(
        decide(&p, "h", &missing),
        AdmissionOutcome::Reject { status: 407, challenge: true }
    );

    let wrong = headers(&[("proxy-authorization", "Basic b3RoZXI6Y3JlZA==")]);
    assert_eq!(
        decide(&p, "h", &wrong),
        AdmissionOutcome::Reject { status: 407, challenge: true }
    );
}

#[test]
fn plaintext_credential_header_is_rejected() {
    // The header must carry the base64 encoding, not the plaintext.
    let p = policy(&[], &["user:pass"], &[]);
    let plain = headers(&[("proxy-authorization", "Basic user:pass")]);
    assert_eq!(
        decide(&p, "h", &plain),
        AdmissionOutcome::Reject { status: 407, challenge: true }
    );
}

#[test]
fn credential_encoding_round_trip() {
    assert_eq!(base64_encode("user:pass"), "dXNlcjpwYXNz");
    assert_eq!(base64_encode(""), "");
    assert_eq!(base64_encode("a"), "YQ==");
    assert_eq!(base64_encode("ab"), "YWI=");
    assert_eq!(base64_encode("abc"), "YWJj");
    let creds = vec!["user:pass".to_string()];
    assert!(is_credentials_allowed("Basic dXNlcjpwYXNz", &creds));
    assert!(!is_credentials_allowed("user:pass", &creds));
    assert!(!is_credentials_allowed("Basic dXNlcjpwYXN", &creds));
}

#[test]
fn token_digest_is_required_and_sufficient() {
    let p = policy(&[], &[], &[SECRET_DIGEST]);
    let good = headers(&[("x-auth-token", SECRET_DIGEST)]);
    assert_eq!(decide(&p, "h", &good), AdmissionOutcome::Allow);

    let missing = headers(&[]);
    assert_eq!(
        decide(&p, "h", &missing),
        AdmissionOutcome::Reject { status: 400, challenge: false }
    );
}

#[test]
fn plaintext_token_is_not_admitted() {
    let p = policy(&[], &[], &[SECRET_DIGEST]);
    let plain = headers(&[("x-auth-token", "secret")]);
    assert_eq!(
        decide(&p, "h", &plain),
        AdmissionOutcome::Reject { status: 400, challenge: false }
    );
}

#[test]
fn sha256_matches_known_vectors() {
    assert_eq!(to_sha256("secret"), SECRET_DIGEST);
    assert_eq!(
        to_sha256(""),
        "e3b0c44298fc1c149afbf4c8996fb92427ae41e4649b934ca495991b7852b855"
    );
}

#[test]
fn tokens_are_trimmed_then_hashed() {
    let tokens = vec!["secret".to_string(), "  secret \t".to_string()];
    let digests = hash_tokens(&tokens);
    assert_eq!(digests, vec![SECRET_DIGEST.to_string(), SECRET_DIGEST.to_string()]);
}

#[test]
fn checks_run_in_fixed_order() {
    // Host failure wins over a missing credential: the reject is a 400,
    // not a 407.
    let p = policy(&["*.example.com"], &["user:pass"], &[SECRET_DIGEST]);
    assert_eq!(
        decide(&p, "evil.com", &headers(&[])),
        AdmissionOutcome::Reject { status: 400, challenge: false }
    );
    // With the host passing, the credential check decides next.
    assert_eq!(
        decide(&p, "api.example.com", &headers(&[])),
        AdmissionOutcome::Reject { status: 407, challenge: true }
    );
    // With credentials passing, the token check decides last.
    let with_cred = headers(&[("proxy-authorization", "Basic dXNlcjpwYXNz")]);
    assert_eq!(
        decide(&p, "api.example.com", &with_cred),
        AdmissionOutcome::Reject { status: 400, challenge: false }
    );
    let all = headers(&[
        ("proxy-authorization", "Basic dXNlcjpwYXNz"),
        ("x-auth-token", SECRET_DIGEST),
    ]);
    assert_eq!(decide(&p, "api.example.com", &all), AdmissionOutcome::Allow);
}

#[test]
fn header_names_compare_case_insensitively() {
    let h = headers(&[("Proxy-Authorization", "Basic dXNlcjpwYXNz"), ("X-Auth-Token", "t")]);
    assert_eq!(
        find_header(&h, "proxy-authorization"),
        Some("Basic dXNlcjpwYXNz".to_string())
    );
    assert_eq!(find_header(&h, "x-auth-token"), Some("t".to_string()));
    assert_eq!(find_header(&h, "host"), None);

    let p = policy(&[], &["user:pass"], &[]);
    assert_eq!(decide(&p, "h", &h), AdmissionOutcome::Allow);
}
