//! Secret-token handling: configured tokens are hashed once at load time,
//! and a presented token header is compared only against those digests.

use vstd::prelude::*;

use crate::text::{spec_trim, trim_str};
use sha2::Digest;

verus! {

/// The 64 lowercase hex characters of the SHA-256 digest of the UTF-8
/// bytes of a string; a function of its input alone.
pub uninterp spec fn sha256_hex_of(s: Seq<char>) -> Seq<char>;

/// Relies on sha2's `Sha256` (new, update, finalize) and the lower-hex
/// formatting of the 32-byte digest: two hex characters per byte.
#[verifier::external_body]
pub fn to_sha256(input: &str) -> (r: String)
    ensures
        r@ == sha256_hex_of(input@),
        r@.len() == 64,
{
    let mut hasher = sha2::Sha256::new();
    hasher.update(input);
    format!("{:x}", hasher.finalize())
}

/// The configured tokens, trimmed and hashed, in order.
pub fn hash_tokens(tokens: &Vec<String>) -> (r: Vec<String>)
    ensures
        r@.len() == tokens@.len(),
        forall|i: int|
            0 <= i < tokens@.len() ==> #[trigger] r@[i]@ == sha256_hex_of(spec_trim(tokens@[i]@)),
        forall|i: int| 0 <= i < tokens@.len() ==> #[trigger] r@[i]@.len() == 64,
{
    let n = tokens.len();
    let mut r: Vec<String> = Vec::new();
    let mut i: usize = 0;
    while i < n
        invariant
            n == tokens@.len(),
            i <= n,
            r@.len() == i,
            forall|k: int|
                0 <= k < i ==> #[trigger] r@[k]@ == sha256_hex_of(spec_trim(tokens@[k]@)),
            forall|k: int| 0 <= k < i ==> #[trigger] r@[k]@.len() == 64,
        decreases n - i,
    {
        let trimmed = trim_str(tokens[i].as_str());
        r.push(to_sha256(trimmed.as_str()));
        i = i + 1;
    }
    r
}

} // verus!
