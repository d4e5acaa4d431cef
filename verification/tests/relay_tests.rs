use proxerver::config::{AuthConfig, HttpConfig, HttpsConfig, ProxyServerConfig, TlsConfig};
use proxerver::config::hash_config_tokens;
use proxerver::relay::{
    forward_outcome, tunnel_begin, tunnel_step, TunnelAction, TunnelEvent, TunnelState,
};
use proxerver::response::{
    bad_request_response, connection_established_response, create_basic_auth_response,
    create_error_response, render_forward_response, require_basic_auth, u64_dec, ResponseModel,
};

const SECRET_DIGEST: &str = "2bb80d537b1da3e38bd30361aa855686bde0eacd7162fef6a25fe97bf527a25b";

#[test]
fn tunnel_confirms_only_after_a_successful_connect() {
    let (s, a) = tunnel_begin(2);
    assert_eq!(s, TunnelState::Trying { next: 0 });
    assert_eq!(a, TunnelAction::Connect { candidate: 0 });

    let (s, a) = tunnel_step(s, 2, TunnelEvent::Connected);
    assert_eq!(s, TunnelState::Relaying);
    assert_eq!(a, TunnelAction::ConfirmAndRelay);

    let (s, a) = tunnel_step(s, 2, TunnelEvent::CopyEnded);
    assert_eq!(s, TunnelState::Done);
    assert_eq!(a, TunnelAction::Close);
}

#[test]
fn tunnel_tries_candidates_in_resolution_order() {
    let (s, _) = tunnel_begin(2);
    let (s, a) = tunnel_step(s, 2, TunnelEvent::ConnectFailed);
    assert_eq!(s, TunnelState::Trying { next: 1 });
    assert_eq!(a, TunnelAction::Connect { candidate: 1 });

    let (s, a) = tunnel_step(s, 2, TunnelEvent::ConnectFailed);
    assert_eq!(s, TunnelState::Done);
    assert_eq!(a, TunnelAction::Close);
}

#[test]
fn tunnel_timeout_always_closes_the_session() {
    let (s, _) = tunnel_begin(3);
    let (s, a) = tunnel_step(s, 3, TunnelEvent::TimedOut);
    assert_eq!(s, TunnelState::Done);
    assert_eq!(a, TunnelAction::Close);

    let (s2, _) = tunnel_step(tunnel_begin(1).0, 1, TunnelEvent::Connected);
    let (s2, a2) = tunnel_step(s2, 1, TunnelEvent::TimedOut);
    assert_eq!(s2, TunnelState::Done);
    assert_eq!(a2, TunnelAction::Close);
}

#[test]
fn tunnel_with_no_candidates_closes_at_once() {
    assert_eq!(tunnel_begin(0), (TunnelState::Done, TunnelAction::Close));
}

#[test]
fn forward_success_passes_the_origin_response_through() {
    let origin = ResponseModel {
        status: 200,
        headers: vec![("content-type".to_string(), "text/plain".to_string())],
        body: b"ok".to_vec(),
    };
    let r = forward_outcome(Some(origin));
    assert_eq!(r.status, 200);
    assert_eq!(r.headers, vec![("content-type".to_string(), "text/plain".to_string())]);
    assert_eq!(r.body, b"ok".to_vec());
}

#[test]
fn forward_failure_is_answered_bad_request() {
    let r = forward_outcome(None);
    assert_eq!(r.status, 400);
    assert!(r.headers.is_empty());
    assert!(r.body.is_empty());
}

#[test]
fn forwarded_response_bytes_carry_the_body_verbatim() {
    let rendered = render_forward_response(200, &b"ok".to_vec());
    assert_eq!(rendered, b"HTTP/1.1 200 OK\r\nContent-Length: 2\r\n\r\nok".to_vec());

    let empty = render_forward_response(200, &Vec::new());
    assert_eq!(empty, b"HTTP/1.1 200 OK\r\nContent-Length: 0\r\n\r\n".to_vec());
}

#[test]
fn rendered_error_responses_match_the_wire_format() {
    assert_eq!(
        create_error_response(400),
        b"HTTP/1.1 400 Bad Request\r\nContent-Length: 0\r\n\r\n".to_vec()
    );
    assert_eq!(
        create_basic_auth_response(),
        b"HTTP/1.1 407 Proxy Authentication Required\r\nProxy-Authenticate: Basic realm=\"proxerver\"\r\nContent-Length: 0\r\n\r\n".to_vec()
    );
    assert_eq!(
        connection_established_response(),
        b"HTTP/1.1 200 Connection Established\r\n\r\n".to_vec()
    );
}

#[test]
fn decimal_rendering_has_no_leading_zeros() {
    assert_eq!(u64_dec(0), "0");
    assert_eq!(u64_dec(7), "7");
    assert_eq!(u64_dec(80), "80");
    assert_eq!(u64_dec(65535), "65535");
    assert_eq!(u64_dec(1000000), "1000000");
}

#[test]
fn rejection_response_models_are_minimal() {
    let bad = bad_request_response();
    assert_eq!(bad.status, 400);
    assert!(bad.headers.is_empty());
    assert!(bad.body.is_empty());

    let auth = require_basic_auth();
    assert_eq!(auth.status, 407);
    assert_eq!(
        auth.headers,
        vec![("proxy-authenticate".to_string(), "Basic realm=\"proxerver\"".to_string())]
    );
    assert!(auth.body.is_empty());
}

#[test]
fn loaded_tokens_are_hashed_once_and_the_rest_is_kept() {
    let config = ProxyServerConfig {
        http: HttpConfig {
            enabled: true,
            port: 8080,
            allowed_hosts: vec!["*.example.com".to_string()],
            auth: AuthConfig {
                credentials: vec!["user:pass".to_string()],
                tokens: vec![" secret ".to_string()],
            },
        },
        https: HttpsConfig {
            enabled: false,
            port: 8443,
            allowed_hosts: Vec::new(),
            auth: AuthConfig { credentials: Vec::new(), tokens: vec!["secret".to_string()] },
            tls: TlsConfig { cert: Some("cert.pem".to_string()), key: Some("key.pem".to_string()) },
        },
    };
    let ready = hash_config_tokens(config);
    assert!(ready.http.enabled);
    assert_eq!(ready.http.port, 8080);
    assert_eq!(ready.http.allowed_hosts, vec!["*.example.com".to_string()]);
    assert_eq!(ready.http.auth.credentials, vec!["user:pass".to_string()]);
    assert_eq!(ready.http.auth.tokens, vec![SECRET_DIGEST.to_string()]);
    assert!(!ready.https.enabled);
    assert_eq!(ready.https.auth.tokens, vec![SECRET_DIGEST.to_string()]);
    assert_eq!(ready.https.tls.cert, Some("cert.pem".to_string()));
    assert_eq!(ready.https.tls.key, Some("key.pem".to_string()));
}
