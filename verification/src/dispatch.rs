//! Request classification: extract the target authority, split it into
//! host and port, and select the tunnel or the forward relay. A pure
//! decision with no I/O; an unusable target is answered, never relayed.

use vstd::prelude::*;

use crate::admission::{decide, decide_spec, headers_views, AdmissionOutcome, ProxyPolicy};
use crate::response::{bad_request_response, outcome_response, ResponseModel};
use crate::text::{
    chars_of, find_char_from, lemma_scan_char_shift, scan_char, str_eq, string_from_range,
};

verus! {

pub open spec fn is_digit(c: char) -> bool {
    '0' <= c && c <= '9'
}

pub open spec fn all_digits(s: Seq<char>) -> bool {
    forall|i: int| 0 <= i < s.len() ==> is_digit(#[trigger] s[i])
}

/// The value of a run of decimal digits, most significant first.
pub open spec fn digits_val(s: Seq<char>) -> int
    decreases s.len(),
{
    if s.len() == 0 {
        0
    } else {
        digits_val(s.drop_last()) * 10 + (s.last() as int - '0' as int)
    }
}

/// A usable port component: non-empty, all digits, value at most 65535.
pub open spec fn valid_port(s: Seq<char>) -> bool {
    s.len() > 0 && all_digits(s) && digits_val(s) <= 65535
}

pub open spec fn spec_parse_port(s: Seq<char>) -> Option<u16> {
    if valid_port(s) {
        Some(digits_val(s) as u16)
    } else {
        None
    }
}

proof fn lemma_digits_val_nonneg(s: Seq<char>)
    requires
        all_digits(s),
    ensures
        digits_val(s) >= 0,
    decreases s.len(),
{
    if s.len() > 0 {
        assert(all_digits(s.drop_last()));
        lemma_digits_val_nonneg(s.drop_last());
    }
}

proof fn lemma_digits_val_step(s: Seq<char>, i: int)
    requires
        0 <= i < s.len(),
    ensures
        digits_val(s.subrange(0, i + 1)) == digits_val(s.subrange(0, i)) * 10 + (s[i] as int
            - '0' as int),
{
    assert(s.subrange(0, i + 1).drop_last() =~= s.subrange(0, i));
    assert(s.subrange(0, i + 1).last() == s[i]);
}

/// The port digits of `v[from..to]`, parsed if usable.
fn parse_port_range(v: &Vec<char>, from: usize, to: usize) -> (r: Option<u16>)
    requires
        from <= to <= v@.len(),
    ensures
        r == spec_parse_port(v@.subrange(from as int, to as int)),
{
    let ghost p = v@.subrange(from as int, to as int);
    if from == to {
        return None;
    }
    let mut acc: u32 = 0;
    let mut i = from;
    while i < to
        invariant
            from <= i <= to <= v@.len(),
            p == v@.subrange(from as int, to as int),
            all_digits(p.subrange(0, i - from)),
            acc <= 65536,
            digits_val(p.subrange(0, i - from)) <= 65535 ==> acc == digits_val(
                p.subrange(0, i - from),
            ),
            digits_val(p.subrange(0, i - from)) > 65535 ==> acc == 65536,
        decreases to - i,
    {
        let c = v[i];
        proof {
            assert(p[i - from] == v@[i as int]);
        }
        if c < '0' || c > '9' {
            proof {
                assert(!is_digit(p[i - from]));
                assert(!all_digits(p));
            }
            return None;
        }
        let d = (c as u32) - 0x30;
        proof {
            lemma_digits_val_step(p, i - from);
            assert(p.subrange(0, i - from + 1).drop_last() =~= p.subrange(0, i - from));
            lemma_digits_val_nonneg(p.subrange(0, i - from));
        }
        let next = acc * 10 + d;
        if next > 65535 {
            acc = 65536;
        } else {
            acc = next;
        }
        proof {
            assert('0' <= c && c <= '9');
            assert(is_digit(p[i - from]));
            let q = p.subrange(0, i - from + 1);
            assert(forall|k: int| 0 <= k < q.len() - 1 ==> #[trigger] q[k] == p.subrange(0, i - from)[k]);
            assert(q[q.len() - 1] == p[i - from]);
            assert(all_digits(q));
        }
        i = i + 1;
    }
    proof {
        assert(p.subrange(0, to - from) =~= p);
    }
    if acc <= 65535 {
        Some(acc as u16)
    } else {
        None
    }
}

/// Host and port of an authority: a bracketed host is cut at its closing
/// bracket; otherwise the host ends at the first `:`. A present port must
/// be usable, and the host non-empty, for the authority to be usable.
pub open spec fn spec_split_authority(a: Seq<char>) -> Option<(Seq<char>, Option<u16>)> {
    if a.len() == 0 {
        None
    } else if a[0] == '[' {
        let e = scan_char(a, ']', 0);
        if e >= a.len() {
            None
        } else if e + 1 == a.len() {
            Some((a.subrange(0, e + 1), None))
        } else if a[e + 1] == ':' {
            match spec_parse_port(a.subrange(e + 2, a.len() as int)) {
                Some(p) => Some((a.subrange(0, e + 1), Some(p))),
                None => None,
            }
        } else {
            None
        }
    } else {
        let c = scan_char(a, ':', 0);
        if c >= a.len() {
            Some((a, None))
        } else if c == 0 {
            None
        } else {
            match spec_parse_port(a.subrange(c + 1, a.len() as int)) {
                Some(p) => Some((a.subrange(0, c), Some(p))),
                None => None,
            }
        }
    }
}

/// Splits an authority into host and optional port, per
/// `spec_split_authority`.
pub fn split_authority(authority: &str) -> (r: Option<(String, Option<u16>)>)
    ensures
        match r {
            Some(hp) => spec_split_authority(authority@) == Some((hp.0@, hp.1)),
            None => spec_split_authority(authority@) is None,
        },
{
    let v = chars_of(authority);
    let n = v.len();
    if n == 0 {
        return None;
    }
    if v[0] == '[' {
        let e = find_char_from(&v, ']', 0);
        if e == n {
            return None;
        }
        if e + 1 == n {
            let host = string_from_range(&v, 0, e + 1);
            return Some((host, None));
        }
        if v[e + 1] == ':' {
            match parse_port_range(&v, e + 2, n) {
                Some(p) => {
                    let host = string_from_range(&v, 0, e + 1);
                    return Some((host, Some(p)));
                },
                None => {
                    return None;
                },
            }
        }
        return None;
    }
    let c = find_char_from(&v, ':', 0);
    if c == n {
        let host = string_from_range(&v, 0, n);
        assert(host@ =~= authority@);
        return Some((host, None));
    }
    if c == 0 {
        return None;
    }
    match parse_port_range(&v, c + 1, n) {
        Some(p) => {
            let host = string_from_range(&v, 0, c);
            Some((host, Some(p)))
        },
        None => None,
    }
}

/// The authority component of a request target: none for an origin-form
/// target, the part between `://` and the next `/` for an absolute-form
/// one, and everything before the first `/` otherwise.
pub open spec fn spec_authority_of(uri: Seq<char>) -> Option<Seq<char>> {
    if uri.len() == 0 {
        None
    } else if uri[0] == '/' {
        None
    } else {
        let c = scan_char(uri, ':', 0);
        if c + 2 < uri.len() && uri[c + 1] == '/' && uri[c + 2] == '/' {
            let rest = uri.subrange(c + 3, uri.len() as int);
            let e = scan_char(rest, '/', 0);
            if e == 0 {
                None
            } else {
                Some(rest.subrange(0, e))
            }
        } else {
            let e = scan_char(uri, '/', 0);
            Some(uri.subrange(0, e))
        }
    }
}

/// The authority of a request target, per `spec_authority_of`.
pub fn host_addr(uri: &str) -> (r: Option<String>)
    ensures
        match r {
            Some(a) => spec_authority_of(uri@) == Some(a@),
            None => spec_authority_of(uri@) is None,
        },
{
    let v = chars_of(uri);
    let n = v.len();
    if n == 0 {
        return None;
    }
    if v[0] == '/' {
        return None;
    }
    let c = find_char_from(&v, ':', 0);
    if n >= 3 && c < n - 2 && v[c + 1] == '/' && v[c + 2] == '/' {
        let ghost rest = uri@.subrange(c + 3, n as int);
        let e = find_char_from(&v, '/', c + 3);
        proof {
            lemma_scan_char_shift(v@, '/', c + 3, c + 3);
        }
        if e == c + 3 {
            return None;
        }
        let a = string_from_range(&v, c + 3, e);
        assert(a@ =~= rest.subrange(0, e - (c + 3)));
        Some(a)
    } else {
        let e = find_char_from(&v, '/', 0);
        let a = string_from_range(&v, 0, e);
        Some(a)
    }
}

/// The host of a request target: the host part of its authority, when
/// both exist.
pub open spec fn spec_uri_host(uri: Seq<char>) -> Option<Seq<char>> {
    match spec_authority_of(uri) {
        None => None,
        Some(a) => match spec_split_authority(a) {
            Some(hp) => Some(hp.0),
            None => None,
        },
    }
}

/// The host of a request target, per `spec_uri_host`.
pub fn uri_host(uri: &str) -> (r: Option<String>)
    ensures
        match r {
            Some(h) => spec_uri_host(uri@) == Some(h@),
            None => spec_uri_host(uri@) is None,
        },
{
    match host_addr(uri) {
        None => None,
        Some(a) => match split_authority(a.as_str()) {
            Some(hp) => Some(hp.0),
            None => None,
        },
    }
}

/// The relay an admitted request is routed to: a raw byte tunnel to the
/// authority of a CONNECT target, or a single forwarded exchange with the
/// declared origin.
pub enum RelayChoice {
    Tunnel { authority: String },
    Forward { host: String, port: u16 },
}

/// The spec-level relay choice.
pub enum SpecRelay {
    Tunnel(Seq<char>),
    Forward(Seq<char>, u16),
}

/// Classification of an admitted request. A CONNECT target must be a
/// usable authority with an explicit port and selects the tunnel; any
/// other method selects the forward relay against the target's host, at
/// its declared port or 80. An unusable target is dispatched nowhere.
pub open spec fn dispatch_spec(method: Seq<char>, uri: Seq<char>) -> Option<SpecRelay> {
    match spec_authority_of(uri) {
        None => None,
        Some(a) => match spec_split_authority(a) {
            None => None,
            Some(hp) => if method == "CONNECT"@ {
                match hp.1 {
                    Some(p) => Some(SpecRelay::Tunnel(a)),
                    None => None,
                }
            } else {
                Some(
                    SpecRelay::Forward(
                        hp.0,
                        match hp.1 {
                            Some(p) => p,
                            None => 80,
                        },
                    ),
                )
            },
        },
    }
}

/// Pure classification of an admitted request, per `dispatch_spec`; no
/// I/O happens here.
pub fn dispatch(method: &str, uri: &str) -> (r: Option<RelayChoice>)
    ensures
        r matches Some(RelayChoice::Tunnel { authority }) ==> dispatch_spec(method@, uri@) == Some(
            SpecRelay::Tunnel(authority@),
        ),
        r matches Some(RelayChoice::Forward { host, port }) ==> dispatch_spec(method@, uri@)
            == Some(SpecRelay::Forward(host@, port)),
        r is None ==> dispatch_spec(method@, uri@) is None,
{
    match host_addr(uri) {
        None => None,
        Some(a) => match split_authority(a.as_str()) {
            None => None,
            Some(hp) => {
                if str_eq(method, "CONNECT") {
                    match hp.1 {
                        Some(_) => Some(RelayChoice::Tunnel { authority: a }),
                        None => None,
                    }
                } else {
                    let port = match hp.1 {
                        Some(p) => p,
                        None => 80,
                    };
                    Some(RelayChoice::Forward { host: hp.0, port })
                }
            },
        },
    }
}

/// What the engine does with one inbound request: answer it directly, or
/// open one of the two relays.
pub enum RouteAction {
    Respond(ResponseModel),
    Tunnel { authority: String },
    Forward { host: String, port: u16 },
}

/// The spec-level route: a response (status, with or without a credential
/// challenge), or a relay.
pub enum SpecRoute {
    Respond(u16, bool),
    Tunnel(Seq<char>),
    Forward(Seq<char>, u16),
}

/// The whole pipeline for one request: a target without a host is
/// answered 400; an inadmissible request is answered with its admission
/// outcome; an admitted request is dispatched, and an undispatchable one
/// answered 400. Relay work follows only an `Allow`.
pub open spec fn route_spec(
    patterns: Seq<Seq<char>>,
    creds: Seq<Seq<char>>,
    digests: Seq<Seq<char>>,
    method: Seq<char>,
    uri: Seq<char>,
    headers: Seq<(Seq<char>, Seq<char>)>,
) -> SpecRoute {
    match spec_uri_host(uri) {
        None => SpecRoute::Respond(400, false),
        Some(h) => match decide_spec(patterns, creds, digests, h, headers) {
            AdmissionOutcome::Reject { status, challenge } => SpecRoute::Respond(status, challenge),
            AdmissionOutcome::Allow => match dispatch_spec(method, uri) {
                None => SpecRoute::Respond(400, false),
                Some(SpecRelay::Tunnel(a)) => SpecRoute::Tunnel(a),
                Some(SpecRelay::Forward(h2, p)) => SpecRoute::Forward(h2, p),
            },
        },
    }
}

/// Runs admission and dispatch for one request, per `route_spec`. The
/// caller performs only the action returned: writing the response, or
/// opening the chosen relay.
pub fn route(policy: &ProxyPolicy, method: &str, uri: &str, headers: &Vec<(String, String)>) -> (r:
    RouteAction)
    ensures
        ({
            let plan = route_spec(
                policy.hosts_view(),
                policy.creds_view(),
                policy.digests_view(),
                method@,
                uri@,
                headers_views(headers@),
            );
            &&& (plan matches SpecRoute::Respond(status, challenge) ==> (r matches
                RouteAction::Respond(resp) && resp.status == status && resp.body@.len() == 0 && (
                challenge ==> resp.headers@.len() == 1 && resp.headers@[0].0@
                == "proxy-authenticate"@ && resp.headers@[0].1@ == "Basic realm=\"proxerver\""@) && (
                !challenge ==> resp.headers@.len() == 0)))
            &&& (plan matches SpecRoute::Tunnel(a) ==> (r matches RouteAction::Tunnel { authority }
                && authority@ == a))
            &&& (plan matches SpecRoute::Forward(h, p) ==> (r matches RouteAction::Forward {
                host,
                port,
            } && host@ == h && port == p))
        }),
{
    let host = uri_host(uri);
    match host {
        None => RouteAction::Respond(bad_request_response()),
        Some(h) => {
            let o = decide(policy, h.as_str(), headers);
            match outcome_response(o) {
                Some(resp) => RouteAction::Respond(resp),
                None => match dispatch(method, uri) {
                    None => RouteAction::Respond(bad_request_response()),
                    Some(RelayChoice::Tunnel { authority }) => RouteAction::Tunnel { authority },
                    Some(RelayChoice::Forward { host: fh, port }) => RouteAction::Forward {
                        host: fh,
                        port,
                    },
                },
            }
        },
    }
}

/// Rejection short-circuits: the pipeline yields a relay only when the
/// target has a host and the admission chain allowed the request — so no
/// outbound connection is ever attempted for a rejected request.
pub proof fn lemma_reject_short_circuits(
    patterns: Seq<Seq<char>>,
    creds: Seq<Seq<char>>,
    digests: Seq<Seq<char>>,
    method: Seq<char>,
    uri: Seq<char>,
    headers: Seq<(Seq<char>, Seq<char>)>,
)
    ensures
        !(route_spec(patterns, creds, digests, method, uri, headers) matches SpecRoute::Respond(
            _,
            _,
        )) ==> (spec_uri_host(uri) matches Some(h) && decide_spec(patterns, creds, digests, h, headers)
            == AdmissionOutcome::Allow),
        (spec_uri_host(uri) matches Some(h) && decide_spec(patterns, creds, digests, h, headers)
            != AdmissionOutcome::Allow) ==> route_spec(patterns, creds, digests, method, uri, headers)
            matches SpecRoute::Respond(_, _),
{
}

} // verus!
