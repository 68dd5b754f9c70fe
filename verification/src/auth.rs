//! The session-token endpoint's shapes and its computation: a caller logs
//! in with a username and password or replays an encrypted login token, and
//! gets the session back as an encrypted token.

use vstd::prelude::*;

use crate::ascii85;
use crate::crypt::{encrypt, spec_is_sealed_blob};
use crate::hexs::AesKey;

verus! {

/// A username and password pair, as the create-session body carries it.
#[derive(Debug, Clone)]
pub struct LoginInfo {
    pub username: String,
    pub password: String,
}

/// What a create-session request authenticates with.
#[derive(Debug, Clone)]
pub enum CreateSessionInfo {
    UsernamePassword(LoginInfo),
    LoginToken { login_token: String },
}

/// What a create-session request answers: the session as a token, and a
/// reusable login token when the caller sent a plain password.
#[derive(Debug, Clone)]
pub struct CreateSessionRes {
    pub session_token: String,
    pub login_token: Option<String>,
}

/// Whether a token string armours a sealed blob of a payload under a key.
pub open spec fn spec_is_token_of(token: Seq<char>, key: Seq<u8>, payload: Seq<u8>) -> bool {
    exists|blob: Seq<u8>|
        #[trigger] spec_is_sealed_blob(blob, key, payload) && token == ascii85::spec_encode(blob)
}

/// Seal the answer of a successful create-session call: the session payload
/// always becomes a token; the login payload becomes one only when the
/// caller authenticated with a plain password.
pub fn create_session_tokens(
    session_payload: &[u8],
    login_payload: &[u8],
    generate_login_token: bool,
    key: &AesKey,
) -> (r: CreateSessionRes)
    requires
        session_payload@.len() <= 0x1000000,
        login_payload@.len() <= 0x1000000,
    ensures
        spec_is_token_of(r.session_token@, key.bytes@, session_payload@),
        r.login_token is Some <==> generate_login_token,
        r.login_token matches Some(t) ==> spec_is_token_of(t@, key.bytes@, login_payload@),
{
    let session_token = encrypt(session_payload, key);
    let login_token = if generate_login_token {
        Some(encrypt(login_payload, key))
    } else {
        None
    };
    CreateSessionRes { session_token, login_token }
}

} // verus!
