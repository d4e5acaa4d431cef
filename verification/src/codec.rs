//! Credential matching: a presented `Proxy-Authorization` value admits a
//! configured `login:password` entry when it contains that entry's base64
//! encoding.

use vstd::prelude::*;

use crate::text::{contains_sub, str_contains, str_views};
use vstd::string::StringSliceAdditionalSpecFns;
use vstd::utf8::encode_utf8;

verus! {

/// The standard base64 alphabet of RFC 4648.
pub open spec fn b64_alphabet() -> Seq<char> {
    "ABCDEFGHIJKLMNOPQRSTUVWXYZabcdefghijklmnopqrstuvwxyz0123456789+/"@
}

/// The character encoding one 6-bit group.
pub open spec fn b64_char(v: int) -> char {
    b64_alphabet()[v]
}

/// Standard base64 with `=` padding: each group of three input bytes
/// becomes four characters; a final group of one or two bytes is padded.
pub open spec fn base64_of(s: Seq<u8>) -> Seq<char>
    decreases s.len(),
{
    if s.len() == 0 {
        Seq::empty()
    } else if s.len() == 1 {
        let b0 = s[0] as int;
        seq![b64_char(b0 / 4), b64_char((b0 % 4) * 16), '=', '=']
    } else if s.len() == 2 {
        let b0 = s[0] as int;
        let b1 = s[1] as int;
        seq![
            b64_char(b0 / 4),
            b64_char((b0 % 4) * 16 + b1 / 16),
            b64_char((b1 % 16) * 4),
            '=',
        ]
    } else {
        let b0 = s[0] as int;
        let b1 = s[1] as int;
        let b2 = s[2] as int;
        seq![
            b64_char(b0 / 4),
            b64_char((b0 % 4) * 16 + b1 / 16),
            b64_char((b1 % 16) * 4 + b2 / 64),
            b64_char(b2 % 64),
        ] + base64_of(s.skip(3))
    }
}

/// Relies on base64's `STANDARD` engine: RFC 4648 base64 with `=` padding
/// over the UTF-8 bytes of the input.
#[verifier::external_body]
pub fn base64_encode(s: &str) -> (r: String)
    ensures
        r@ == base64_of(s.spec_bytes()),
{
    base64::Engine::encode(&base64::engine::general_purpose::STANDARD, s)
}

/// The base64 encoding of a credential entry's UTF-8 bytes.
pub open spec fn cred_encoding(cred: Seq<char>) -> Seq<char> {
    base64_of(encode_utf8(cred))
}

/// Whether the presented header value contains the base64 encoding of at
/// least one configured credential.
pub open spec fn any_credential_matches(header: Seq<char>, creds: Seq<Seq<char>>) -> bool {
    exists|k: int| 0 <= k < creds.len() && contains_sub(header, #[trigger] cred_encoding(creds[k]))
}

/// Whether the presented `Proxy-Authorization` value admits one of the
/// configured `login:password` entries.
pub fn is_credentials_allowed(credentials_header: &str, credentials_allowed: &Vec<String>) -> (r:
    bool)
    ensures
        r == any_credential_matches(credentials_header@, str_views(credentials_allowed@)),
{
    let n = credentials_allowed.len();
    let mut i: usize = 0;
    while i < n
        invariant
            n == credentials_allowed@.len(),
            i <= n,
            forall|k: int|
                0 <= k < i ==> !contains_sub(
                    credentials_header@,
                    #[trigger] cred_encoding(str_views(credentials_allowed@)[k]),
                ),
        decreases n - i,
    {
        let encoded = base64_encode(credentials_allowed[i].as_str());
        if str_contains(credentials_header, encoded.as_str()) {
            assert(contains_sub(
                credentials_header@,
                cred_encoding(str_views(credentials_allowed@)[i as int]),
            ));
            return true;
        }
        i = i + 1;
    }
    false
}

} // verus!
