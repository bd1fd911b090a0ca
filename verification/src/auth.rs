//! Proxy authentication: the precomputed expected credential header
//! and the challenge returned when a request fails the check.

use base64::Engine;
use vstd::prelude::*;
use vstd::string::StringExecFns;

verus! {

/// What base64's `STANDARD` engine returns for the UTF-8 bytes of `s`.
pub uninterp spec fn base64_utf8(s: Seq<char>) -> Seq<char>;

/// Relies on base64's `Engine::encode` with the `STANDARD` engine:
/// the encoding is a function of the input bytes alone.
#[verifier::external_body]
fn base64_encode_utf8(s: &str) -> (r: String)
    ensures
        r@ == base64_utf8(s@),
{
    base64::engine::general_purpose::STANDARD.encode(s.as_bytes())
}

/// The expected `Proxy-Authorization` value for the given credentials:
/// the `Basic` scheme token followed by the encoded `user:pass` pair.
pub open spec fn expected_auth_header(username: Seq<char>, password: Seq<char>) -> Seq<char> {
    "Basic "@ + base64_utf8(username + ":"@ + password)
}

/// Precomputes the expected credential header once at startup.
pub fn create_basic_auth_header(username: &str, password: &str) -> (r: String)
    ensures
        r@ == expected_auth_header(username@, password@),
{
    let credentials = username.to_owned().concat(":").concat(password);
    proof {
        assert(credentials@ == username@ + ":"@ + password@);
    }
    let encoded = base64_encode_utf8(credentials.as_str());
    let r = "Basic ".to_owned().concat(encoded.as_str());
    proof {
        assert(r@ == expected_auth_header(username@, password@));
    }
    r
}

/// The response written when authentication fails: status 407 with a
/// `Basic` challenge and a plain-text body.
pub struct AuthChallenge {
    pub status: u16,
    pub proxy_authenticate: String,
    pub content_type: String,
    pub body: String,
}

/// Builds the fixed 407 challenge response.
pub fn auth_challenge() -> (c: AuthChallenge)
    ensures
        c.status == 407,
        c.proxy_authenticate@ == "Basic realm=\"Proxy\""@,
        c.content_type@ == "text/plain"@,
        c.body@ == "Proxy Authentication Required"@,
{
    AuthChallenge {
        status: 407,
        proxy_authenticate: "Basic realm=\"Proxy\"".to_owned(),
        content_type: "text/plain".to_owned(),
        body: "Proxy Authentication Required".to_owned(),
    }
}

} // verus!
