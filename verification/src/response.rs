//! Response values the engine answers with, and their wire-level
//! rendering for listeners that write raw bytes.

use vstd::prelude::*;

use crate::admission::AdmissionOutcome;
use crate::text::push_char;
use vstd::string::{StrSliceExecFns, StringExecFns, StringSliceAdditionalSpecFns};
use vstd::utf8::encode_utf8;

verus! {

/// A response as the engine models it: status code, header list, body.
pub struct ResponseModel {
    pub status: u16,
    pub headers: Vec<(String, String)>,
    pub body: Vec<u8>,
}

/// The minimal-information rejection: bad-request status, no headers of
/// note, empty body.
pub fn bad_request_response() -> (r: ResponseModel)
    ensures
        r.status == 400,
        r.headers@.len() == 0,
        r.body@.len() == 0,
{
    ResponseModel { status: 400, headers: Vec::new(), body: Vec::new() }
}

/// The credential challenge: 407 with `Proxy-Authenticate: Basic` under
/// the fixed realm, empty body.
pub fn require_basic_auth() -> (r: ResponseModel)
    ensures
        r.status == 407,
        r.headers@.len() == 1,
        r.headers@[0].0@ == "proxy-authenticate"@,
        r.headers@[0].1@ == "Basic realm=\"proxerver\""@,
        r.body@.len() == 0,
{
    let mut headers: Vec<(String, String)> = Vec::new();
    headers.push(
        (String::from_str("proxy-authenticate"), String::from_str("Basic realm=\"proxerver\"")),
    );
    ResponseModel { status: 407, headers, body: Vec::new() }
}

/// The response a rejection is answered with; an admitted request needs
/// none.
pub fn outcome_response(o: AdmissionOutcome) -> (r: Option<ResponseModel>)
    ensures
        (o is Allow) <==> (r is None),
        o matches AdmissionOutcome::Reject { status, challenge } ==> (r matches Some(resp)
            && resp.status == status && resp.body@.len() == 0 && (challenge ==> resp.headers@.len()
            == 1 && resp.headers@[0].0@ == "proxy-authenticate"@ && resp.headers@[0].1@
            == "Basic realm=\"proxerver\""@) && (!challenge ==> resp.headers@.len() == 0)),
{
    match o {
        AdmissionOutcome::Allow => None,
        AdmissionOutcome::Reject { status, challenge } => {
            if challenge {
                let mut resp = require_basic_auth();
                resp.status = status;
                Some(resp)
            } else {
                let mut resp = bad_request_response();
                resp.status = status;
                Some(resp)
            }
        },
    }
}

/// The character encoding one decimal digit.
pub open spec fn digit_char(d: int) -> char {
    (('0' as int) + d) as char
}

/// The decimal rendering of a non-negative number, most significant digit
/// first, with no leading zeros (a lone zero for zero).
pub open spec fn dec_of(n: int) -> Seq<char>
    decreases n,
{
    if n < 10 {
        seq![digit_char(n)]
    } else {
        dec_of(n / 10).push(digit_char(n % 10))
    }
}

fn push_digit(s: &mut String, d: u64)
    requires
        d < 10,
    ensures
        final(s)@ == old(s)@.push(digit_char(d as int)),
{
    let c = ((48 + d) as u8) as char;
    assert(c == digit_char(d as int));
    push_char(s, c);
}

fn append_dec(s: &mut String, n: u64)
    ensures
        final(s)@ == old(s)@ + dec_of(n as int),
    decreases n,
{
    if n < 10 {
        push_digit(s, n);
        assert(final(s)@ =~= old(s)@ + dec_of(n as int));
    } else {
        append_dec(s, n / 10);
        push_digit(s, n % 10);
        assert(final(s)@ =~= old(s)@ + dec_of(n as int));
    }
}

/// The decimal rendering of `n`.
pub fn u64_dec(n: u64) -> (r: String)
    ensures
        r@ == dec_of(n as int),
{
    let mut s = String::new();
    append_dec(&mut s, n);
    assert(s@ =~= dec_of(n as int));
    s
}

/// The canonical reason phrase of the statuses the engine answers with.
pub open spec fn reason_of(status: int) -> Seq<char> {
    if status == 200 {
        "OK"@
    } else if status == 400 {
        "Bad Request"@
    } else if status == 407 {
        "Proxy Authentication Required"@
    } else {
        "Unknown"@
    }
}

pub fn reason_phrase(status: u16) -> (r: &'static str)
    ensures
        r@ == reason_of(status as int),
{
    if status == 200 {
        "OK"
    } else if status == 400 {
        "Bad Request"
    } else if status == 407 {
        "Proxy Authentication Required"
    } else {
        "Unknown"
    }
}

/// The start of a rendered response: protocol, status code, reason.
pub open spec fn status_head(status: int) -> Seq<char> {
    "HTTP/1.1 "@ + dec_of(status) + " "@ + reason_of(status)
}

fn render_status_head(status: u16) -> (r: String)
    ensures
        r@ == status_head(status as int),
{
    let mut s = String::from_str("HTTP/1.1 ");
    append_dec(&mut s, status as u64);
    s.append(" ");
    s.append(reason_phrase(status));
    assert(s@ =~= status_head(status as int));
    s
}

/// The bytes of an empty-bodied error response: status line and a zero
/// content length, nothing else.
pub fn create_error_response(status: u16) -> (r: Vec<u8>)
    ensures
        r@ == encode_utf8(status_head(status as int) + "\r\nContent-Length: 0\r\n\r\n"@),
{
    let mut s = render_status_head(status);
    s.append("\r\nContent-Length: 0\r\n\r\n");
    s.as_str().as_bytes_vec()
}

/// The bytes of the credential challenge answered on the raw-listener
/// path: 407, the `Proxy-Authenticate: Basic` header under the fixed
/// realm, and a zero content length.
pub fn create_basic_auth_response() -> (r: Vec<u8>)
    ensures
        r@ == encode_utf8(
            status_head(407) + "\r\nProxy-Authenticate: Basic realm=\"proxerver\"\r\nContent-Length: 0\r\n\r\n"@,
        ),
{
    let mut s = render_status_head(407);
    s.append("\r\nProxy-Authenticate: Basic realm=\"proxerver\"\r\nContent-Length: 0\r\n\r\n");
    s.as_str().as_bytes_vec()
}

/// The bytes confirming an established tunnel, sent only after the
/// outbound connect succeeded.
pub fn connection_established_response() -> (r: Vec<u8>)
    ensures
        r@ == encode_utf8("HTTP/1.1 200 Connection Established\r\n\r\n"@),
{
    "HTTP/1.1 200 Connection Established\r\n\r\n".as_bytes_vec()
}

/// The bytes replaying an origin response to the client: status line, the
/// body's exact content length, then the body verbatim — nothing added,
/// nothing dropped.
pub fn render_forward_response(status: u16, body: &Vec<u8>) -> (r: Vec<u8>)
    ensures
        r@ == encode_utf8(
            status_head(status as int) + "\r\nContent-Length: "@ + dec_of(body@.len() as int)
                + "\r\n\r\n"@,
        ) + body@,
{
    let mut s = render_status_head(status);
    s.append("\r\nContent-Length: ");
    append_dec(&mut s, body.len() as u64);
    s.append("\r\n\r\n");
    assert(s@ =~= status_head(status as int) + "\r\nContent-Length: "@ + dec_of(
        body@.len() as int,
    ) + "\r\n\r\n"@);
    let mut out = s.as_str().as_bytes_vec();
    let ghost frame = out@;
    let n = body.len();
    let mut i: usize = 0;
    while i < n
        invariant
            n == body@.len(),
            i <= n,
            out@ == frame + body@.subrange(0, i as int),
        decreases n - i,
    {
        out.push(body[i]);
        assert(out@ =~= frame + body@.subrange(0, i + 1));
        i = i + 1;
    }
    assert(out@ =~= frame + body@);
    out
}

} // verus!
