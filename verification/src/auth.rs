//! The bearer token that every request but a health check has to carry:
//! `Authorization: Bearer <token>`.

use crate::text::{header_reading, header_text, is_visible, join, text_eq};
use vstd::prelude::*;

verus! {

/// The path that needs no token, so that health checks work without one.
pub open spec fn health_path() -> Seq<char> {
    "/health"@
}

/// The header value that carries `token`.
pub open spec fn bearer_value(token: Seq<char>) -> Seq<char> {
    "Bearer "@ + token
}

/// The `Authorization` header, as sent, carries `token`.
pub open spec fn is_authorized(token: Seq<char>, authorization: Option<Seq<u8>>) -> bool {
    authorization matches Some(bytes) && header_reading(bytes) == Some(bearer_value(token))
}

/// The request goes through.
pub open spec fn is_admitted(
    token: Seq<char>,
    path: Seq<char>,
    authorization: Option<Seq<u8>>,
) -> bool {
    path == health_path() || is_authorized(token, authorization)
}

/// The answer to a request that is turned away; it has no headers.
#[derive(Debug, PartialEq, Eq)]
pub struct Rejection {
    pub status: u16,
    pub body: &'static str,
}

/// What becomes of a request.
#[derive(Debug, PartialEq, Eq)]
pub enum AuthDecision {
    Forward,
    Reject(Rejection),
}

/// Holds the token and puts it in front of a service.
#[derive(Clone)]
pub struct BearerAuthLayer {
    token: String,
}

impl View for BearerAuthLayer {
    type V = Seq<char>;

    closed spec fn view(&self) -> Seq<char> {
        self.token@
    }
}

impl BearerAuthLayer {
    pub fn new(token: String) -> (r: Self)
        ensures
            r@ == token@,
    {
        BearerAuthLayer { token }
    }

    /// Puts the token in front of `inner`.
    pub fn layer<S>(&self, inner: S) -> (r: BearerAuthMiddleware<S>)
        ensures
            r.inner == inner,
            r.token@ == self@,
    {
        BearerAuthMiddleware { inner, token: self.token.clone() }
    }
}

/// A service with a token in front of it.
#[derive(Clone)]
pub struct BearerAuthMiddleware<S> {
    pub inner: S,
    pub token: String,
}

impl<S> BearerAuthMiddleware<S> {
    /// Decides on a request from its path and the bytes of its `Authorization` header.
    pub fn decide(&self, path: &str, authorization: Option<&[u8]>) -> (r: AuthDecision)
        ensures
            r is Forward <==> is_admitted(
                self.token@,
                path@,
                match authorization {
                    Some(bytes) => Some(bytes@),
                    None => None,
                },
            ),
            r matches AuthDecision::Reject(rejection) ==> rejection.status == 401
                && rejection.body@ == "Unauthorized"@,
    {
        if text_eq(path, "/health") {
            return AuthDecision::Forward;
        }
        if let Some(bytes) = authorization {
            if let Some(text) = header_text(bytes) {
                let expected = join("Bearer ", self.token.as_str());
                if text == expected {
                    return AuthDecision::Forward;
                }
            }
        }
        AuthDecision::Reject(Rejection { status: 401, body: "Unauthorized" })
    }
}

/// A header carries one token at most.
pub proof fn header_carries_one_token(a: Seq<char>, b: Seq<char>, authorization: Option<Seq<u8>>)
    requires
        is_authorized(a, authorization),
        is_authorized(b, authorization),
    ensures
        a == b,
{
    assert(bearer_value(a).skip("Bearer "@.len() as int) == a);
    assert(bearer_value(b).skip("Bearer "@.len() as int) == b);
}

/// Whatever the token, a health check goes through, and a request for another path
/// that has no `Authorization` header does not.
pub proof fn only_health_needs_no_token(token: Seq<char>, path: Seq<char>)
    ensures
        is_admitted(token, path, None) <==> path == health_path(),
        path == health_path() ==> forall|authorization: Option<Seq<u8>>|
            is_admitted(token, path, authorization),
{
}

/// A header carries a token exactly where its bytes spell out `Bearer `, with one space, and
/// the token, with nothing before, between or after them, and all of them are visible.
pub proof fn token_is_carried_byte_for_byte(token: Seq<char>, authorization: Option<Seq<u8>>)
    ensures
        authorization is None ==> !is_authorized(token, authorization),
        authorization matches Some(bytes) ==> (is_authorized(token, authorization) <==> {
            &&& bytes.len() == 7 + token.len()
            &&& bytes[0] == 66 && bytes[1] == 101 && bytes[2] == 97 && bytes[3] == 114
            &&& bytes[4] == 101 && bytes[5] == 114 && bytes[6] == 32
            &&& forall|i: int|
                7 <= i < bytes.len() ==> {
                    &&& 32 <= #[trigger] bytes[i] < 127 || bytes[i] == 9
                    &&& token[i - 7] == bytes[i] as char
                }
        }),
{
    reveal_strlit("Bearer ");
    if let Some(bytes) = authorization {
        let text = Seq::new(bytes.len(), |i: int| bytes[i] as char);
        if is_authorized(token, authorization) {
            assert(header_reading(bytes) == Some(text));
            assert(text.len() == 7 + token.len());
            assert(text[0] == 'B' && text[1] == 'e' && text[2] == 'a' && text[3] == 'r');
            assert(text[4] == 'e' && text[5] == 'r' && text[6] == ' ');
            assert forall|i: int| 7 <= i < bytes.len() implies {
                &&& 32 <= #[trigger] bytes[i] < 127 || bytes[i] == 9
                &&& token[i - 7] == bytes[i] as char
            } by {
                assert(text[i] == bearer_value(token)[i]);
            }
        } else if bytes.len() == 7 + token.len() && bytes[0] == 66 && bytes[1] == 101 && bytes[2]
            == 97 && bytes[3] == 114 && bytes[4] == 101 && bytes[5] == 114 && bytes[6] == 32 && (
        forall|i: int|
            7 <= i < bytes.len() ==> {
                &&& 32 <= #[trigger] bytes[i] < 127 || bytes[i] == 9
                &&& token[i - 7] == bytes[i] as char
            }) {
            assert forall|i: int| 0 <= i < bytes.len() implies is_visible(#[trigger] bytes[i]) by {}
            assert(text == bearer_value(token));
        }
    }
}

/// A request goes through exactly where it is a health check or its header carries the token.
pub proof fn requests_need_the_token(
    token: Seq<char>,
    path: Seq<char>,
    authorization: Option<Seq<u8>>,
)
    ensures
        is_admitted(token, path, authorization) <==> path == "/health"@ || is_authorized(
            token,
            authorization,
        ),
{
}

} // verus!
