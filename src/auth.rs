//! Who may post to the ingestion endpoints: requests from the game server,
//! carrying the shared key.
use base64::Engine;
use vstd::prelude::*;
use vstd::utf8::*;

verus! {

/// Proof that a request passed the checks on its headers.
#[derive(Debug)]
pub struct Authorized;

/// The standard-alphabet, padded Base64 text of `b`.
pub uninterp spec fn base64_standard(b: Seq<u8>) -> Seq<char>;

/// The start that every accepted user agent has.
pub open spec fn agent_prefix() -> Seq<char> {
    "Minecraft server"@
}

/// The scheme word that opens the authorization header.
pub open spec fn basic_scheme() -> Seq<char> {
    seq!['B', 'a', 's', 'i', 'c', ' ']
}

/// The authorization header that carries `api_key`.
pub open spec fn auth_header_for(api_key: Seq<char>) -> Seq<char> {
    basic_scheme() + base64_standard(encode_utf8(api_key))
}

/// A request passes unless it names a user agent that is not the game
/// server's, or an authorization that is not the expected one; a header that
/// is absent is not checked.
pub open spec fn authorized_spec(
    user_agent: Option<Seq<char>>,
    authorization: Option<Seq<char>>,
    expected: Seq<char>,
) -> bool {
    &&& user_agent matches Some(a) ==> agent_prefix().is_prefix_of(a)
    &&& authorization matches Some(h) ==> h == expected
}

/// Relies on `str::starts_with` with a string pattern: whether `prefix` is a
/// prefix of `s`.
#[verifier::external_body]
fn starts_with(s: &str, prefix: &str) -> (r: bool)
    ensures
        r == prefix@.is_prefix_of(s@),
{
    s.starts_with(prefix)
}

/// Relies on `base64::engine::general_purpose::STANDARD.encode`: the
/// standard-alphabet, padded Base64 text of the bytes.
#[verifier::external_body]
fn encode_base64(bytes: &[u8]) -> (r: String)
    ensures
        r@ == base64_standard(bytes@),
{
    base64::engine::general_purpose::STANDARD.encode(bytes)
}

/// The authorization header that the game server sends with `api_key`.
pub fn expected_auth_header(api_key: &str) -> (r: String)
    ensures
        r@ == auth_header_for(api_key@),
{
    let encoded = encode_base64(api_key.as_bytes());
    let mut header = String::new();
    header.append("Basic ");
    proof {
        reveal_strlit("Basic ");
    }
    header.append(encoded.as_str());
    assert(header@ =~= auth_header_for(api_key@));
    header
}

impl Authorized {
    /// Checks a request's user agent and authorization headers, each `None`
    /// when absent or not text, against the expected authorization.
    pub fn from_headers(
        user_agent: Option<&str>,
        authorization: Option<&str>,
        expected_auth_header: &str,
    ) -> (r: Option<Authorized>)
        ensures
            r is Some <==> authorized_spec(
                match user_agent {
                    Some(a) => Some(a@),
                    None => None,
                },
                match authorization {
                    Some(h) => Some(h@),
                    None => None,
                },
                expected_auth_header@,
            ),
    {
        if let Some(agent) = user_agent {
            proof {
                reveal_strlit("Minecraft server");
            }
            if !starts_with(agent, "Minecraft server") {
                return None;
            }
        }
        if let Some(header) = authorization {
            let given = header.to_owned();
            let expected = expected_auth_header.to_owned();
            if given != expected {
                return None;
            }
        }
        Some(Authorized)
    }
}

} // verus!
