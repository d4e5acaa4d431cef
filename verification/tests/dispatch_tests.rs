use proxerver::admission::ProxyPolicy;
use proxerver::dispatch::{
    dispatch, host_addr, route, split_authority, uri_host, RelayChoice, RouteAction,
};

fn policy(hosts: &[&str]) -> ProxyPolicy {
    ProxyPolicy {
        allowed_hosts: hosts.iter().map(|s| s.to_string()).collect(),
        allowed_credentials: Vec::new(),
        allowed_token_digests: Vec::new(),
    }
}

#[test]
fn authority_of_each_target_form() {
    assert_eq!(host_addr("example.com:443"), Some("example.com:443".to_string()));
    assert_eq!(host_addr("http://origin/path"), Some("origin".to_string()));
    assert_eq!(host_addr("http://origin:8080/path"), Some("origin:8080".to_string()));
    assert_eq!(host_addr("/path"), None);
    assert_eq!(host_addr(""), None);
    assert_eq!(host_addr("http:///path"), None);
}

#[test]
fn authorities_split_into_host_and_port() {
    assert_eq!(
        split_authority("example.com:443"),
        Some(("example.com".to_string(), Some(443)))
    );
    assert_eq!(split_authority("example.com"), Some(("example.com".to_string(), None)));
    assert_eq!(split_authority("[::1]:8080"), Some(("[::1]".to_string(), Some(8080))));
    assert_eq!(split_authority("[::1]"), Some(("[::1]".to_string(), None)));
    assert_eq!(split_authority("example.com:65535").unwrap().1, Some(65535));
    assert_eq!(split_authority("example.com:65536"), None);
    assert_eq!(split_authority("example.com:"), None);
    assert_eq!(split_authority("example.com:8a"), None);
    assert_eq!(split_authority(":443"), None);
    assert_eq!(split_authority(""), None);
}

#[test]
fn connect_with_port_goes_to_the_tunnel() {
    match dispatch("CONNECT", "example.com:443") {
        Some(RelayChoice::Tunnel { authority }) => assert_eq!(authority, "example.com:443"),
        other => panic!("expected a tunnel, got {:?}", discriminant_name(&other)),
    }
}

#[test]
fn connect_without_port_is_rejected() {
    assert!(dispatch("CONNECT", "example.com").is_none());
    assert!(dispatch("CONNECT", "/path").is_none());
}

#[test]
fn other_methods_forward_with_default_port_80() {
    match dispatch("GET", "http://origin/path") {
        Some(RelayChoice::Forward { host, port }) => {
            assert_eq!(host, "origin");
            assert_eq!(port, 80);
        },
        other => panic!("expected a forward, got {:?}", discriminant_name(&other)),
    }
    match dispatch("GET", "http://origin:8080/path") {
        Some(RelayChoice::Forward { port, .. }) => assert_eq!(port, 8080),
        other => panic!("expected a forward, got {:?}", discriminant_name(&other)),
    }
}

#[test]
fn uri_host_strips_scheme_and_port() {
    assert_eq!(uri_host("http://origin:8080/path"), Some("origin".to_string()));
    assert_eq!(uri_host("example.com:443"), Some("example.com".to_string()));
    assert_eq!(uri_host("/path"), None);
}

#[test]
fn rejected_host_short_circuits_before_any_relay() {
    // The spy: a rejecting policy must never yield a relay choice, so no
    // dialer could ever see a connect attempt for this request.
    let p = policy(&["allowed.example"]);
    let r = route(&p, "CONNECT", "evil.com:443", &Vec::new());
    match r {
        RouteAction::Respond(resp) => {
            assert_eq!(resp.status, 400);
            assert!(resp.body.is_empty());
        },
        RouteAction::Tunnel { .. } => panic!("a rejected request reached the tunnel"),
        RouteAction::Forward { .. } => panic!("a rejected request reached the forward relay"),
    }
}

#[test]
fn admitted_connect_routes_to_the_tunnel() {
    let p = policy(&["allowed.example"]);
    match route(&p, "CONNECT", "allowed.example:443", &Vec::new()) {
        RouteAction::Tunnel { authority } => assert_eq!(authority, "allowed.example:443"),
        _ => panic!("expected a tunnel"),
    }
}

#[test]
fn hostless_target_is_answered_bad_request() {
    let p = policy(&[]);
    match route(&p, "GET", "/path-only", &Vec::new()) {
        RouteAction::Respond(resp) => assert_eq!(resp.status, 400),
        _ => panic!("expected a response"),
    }
}

#[test]
fn credential_rejection_carries_the_challenge() {
    let p = ProxyPolicy {
        allowed_hosts: Vec::new(),
        allowed_credentials: vec!["user:pass".to_string()],
        allowed_token_digests: Vec::new(),
    };
    match route(&p, "GET", "http://origin/", &Vec::new()) {
        RouteAction::Respond(resp) => {
            assert_eq!(resp.status, 407);
            assert_eq!(
                resp.headers,
                vec![("proxy-authenticate".to_string(), "Basic realm=\"proxerver\"".to_string())]
            );
            assert!(resp.body.is_empty());
        },
        _ => panic!("expected a response"),
    }
}

fn discriminant_name(r: &Option<RelayChoice>) -> &'static str {
    match r {
        None => "none",
        Some(RelayChoice::Tunnel { .. }) => "tunnel",
        Some(RelayChoice::Forward { .. }) => "forward",
    }
}
