//! HTTP Basic authentication: the header value for a username and
//! password pair.

use vstd::prelude::*;
use vstd::string::StringExecFns;
use vstd::utf8::encode_utf8;

verus! {

/// The base64 text (standard alphabet, padded) that encodes a byte string.
pub uninterp spec fn base64_standard_of(bytes: Seq<u8>) -> Seq<char>;

/// Relies on base64's STANDARD engine encode: the output depends on the
/// input bytes alone. The length bound keeps the engine's output-size
/// arithmetic away from overflow, counting up to four bytes per character.
#[verifier::external_body]
fn base64_encode_str(s: &str) -> (r: String)
    requires
        s@.len() <= usize::MAX / 8,
    ensures
        r@ == base64_standard_of(encode_utf8(s@)),
{
    base64::Engine::encode(&base64::engine::general_purpose::STANDARD, s.as_bytes())
}

/// The characters of a `username:password` credential pair.
pub open spec fn credential_pair(username: Seq<char>, password: Seq<char>) -> Seq<char> {
    username + ":"@ + password
}

/// The value of the Authorization header for HTTP Basic authentication:
/// `Basic ` followed by the base64 encoding of `username:password`.
pub fn basic_auth_header(username: &str, password: &str) -> (r: String)
    requires
        username@.len() + password@.len() + 1 <= usize::MAX / 8,
    ensures
        r@ == "Basic "@ + base64_standard_of(
            encode_utf8(credential_pair(username@, password@)),
        ),
{
    let mut pair = String::from_str(username);
    pair.append(":");
    pair.append(password);
    proof {
        reveal_strlit(":");
        assert(pair@ =~= credential_pair(username@, password@));
        assert(pair@.len() == username@.len() + password@.len() + 1);
    }
    let encoded = base64_encode_str(pair.as_str());
    let mut header = String::from_str("Basic ");
    header.append(encoded.as_str());
    header
}

} // verus!
