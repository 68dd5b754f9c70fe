//! The session cache and the single resolution path: cache hit, or
//! credentials, login and cache fill.

use vstd::prelude::*;

use crate::credentials::Private;
use crate::crypt::{encrypt_bytes, spec_is_sealed_blob};
use crate::error::{spec_app_error_of, AppError, Error};
use crate::hexs::{spec_uuid_hyphenated, uuid_hyphenated, AesKey};
use vstd::string::StringExecFns;

verus! {

/// An authenticated session, one variant per supported system.
#[derive(Debug, Clone)]
pub enum Session {
    Skolplattformen(crate::login::Session),
}

impl Session {
    /// Seconds a cached session lives: fifteen minutes.
    pub fn ttl(&self) -> (r: usize)
        ensures
            r == 900,
    {
        900
    }
}

/// The cache key of a user's session: a versioned prefix, then the user id
/// in hyphenated form.
pub open spec fn spec_cache_key(user: Seq<u8>) -> Seq<char> {
    "v0:sessions:"@ + spec_uuid_hyphenated(user)
}

/// Compute a user's session cache key.
pub fn cache_key(user: &[u8; 16]) -> (r: String)
    ensures
        r@ == spec_cache_key(user@),
{
    let mut out = String::from_str("v0:sessions:");
    out.append(uuid_hyphenated(user).as_str());
    out
}

/// Read the cache's answer: an absent key is a miss, and so is a value
/// that does not open — never an error. What comes back is the sealed
/// payload, exactly as it was written.
pub fn cached_session_payload(cached: Option<Vec<u8>>, key: &AesKey) -> (r: Option<Vec<u8>>)
    ensures
        cached is None ==> r is None,
        r matches Some(p) ==> cached matches Some(b) && spec_is_sealed_blob(
            b@,
            key.bytes@,
            p@,
        ),
        cached matches Some(b) ==> ((exists|p: Seq<u8>|
            spec_is_sealed_blob(b@, key.bytes@, p)) <==> r is Some),
{
    match cached {
        None => None,
        Some(b) => {
            match crate::crypt::decrypt_bytes(b.as_slice(), key) {
                Ok(p) => Some(p),
                Err(_) => None,
            }
        },
    }
}

/// What a cache fill writes: the user's key, the sealed session payload,
/// and the session's TTL.
pub struct CacheWrite {
    pub key: String,
    pub value: Vec<u8>,
    pub ttl_seconds: usize,
}

/// Seal a session payload for the cache, under the user's key and the
/// session TTL, set and expired together.
pub fn save_to_cache(session_payload: &[u8], user: &[u8; 16], key: &AesKey) -> (r: CacheWrite)
    requires
        session_payload@.len() <= 0x1000000,
    ensures
        r.key@ == spec_cache_key(user@),
        spec_is_sealed_blob(r.value@, key.bytes@, session_payload@),
        r.ttl_seconds == 900,
{
    CacheWrite {
        key: cache_key(user),
        value: encrypt_bytes(session_payload, key),
        ttl_seconds: 900,
    }
}

/// Where the resolution of a user's session stands: what must be done
/// next, or how it ended.
pub enum Resolution {
    /// Read the user's cache key.
    CheckCache,
    /// The cache missed: load the credential row.
    LoadCredentials,
    /// Credentials are at hand: run the upstream login with them.
    PerformLogin(Private),
    /// The login produced a session payload: write it to the cache.
    StoreSession(Vec<u8>),
    /// A session payload is at hand.
    Ready(Vec<u8>),
    /// No credentials are stored; resolution ends without a session.
    NoCredentials,
    /// The upstream login failed.
    LoginFailed(AppError),
}

/// What the surroundings hand back to the resolution.
pub enum ResolveEvent {
    /// The cached value under the user's key, if any.
    CacheRead(Option<Vec<u8>>),
    /// The decoded credential row, if any.
    CredentialsRead(Option<Private>),
    /// The outcome of the upstream login, as a session payload.
    LoginDone(Result<Vec<u8>, Error>),
    /// The cache write finished (its failure is not fatal).
    Stored,
}

/// One step of the single resolution path: check the cache; on a hit the
/// payload is ready at once and no login happens; on a miss load the
/// credentials, and only with credentials in hand is one login performed,
/// whose payload is stored and then ready. A mismatched event leaves the
/// resolution where it stood.
pub fn resolve_step(state: Resolution, event: ResolveEvent, key: &AesKey) -> (r: Resolution)
    ensures
        (match (state, event) {
            (Resolution::CheckCache, ResolveEvent::CacheRead(c)) => match r {
                Resolution::Ready(p) => c matches Some(b) && spec_is_sealed_blob(
                    b@,
                    key.bytes@,
                    p@,
                ),
                Resolution::LoadCredentials => !(c matches Some(b) && exists|p: Seq<u8>|
                    spec_is_sealed_blob(b@, key.bytes@, p)),
                _ => false,
            },
            (Resolution::LoadCredentials, ResolveEvent::CredentialsRead(c)) => match r {
                Resolution::PerformLogin(p) => c == Some(p),
                Resolution::NoCredentials => c is None,
                _ => false,
            },
            (Resolution::PerformLogin(_), ResolveEvent::LoginDone(o)) => match r {
                Resolution::StoreSession(p) => o matches Ok(p2) && p == p2,
                Resolution::LoginFailed(e) => o matches Err(e2) && e == spec_app_error_of(e2),
                _ => false,
            },
            (Resolution::StoreSession(p), ResolveEvent::Stored) => r == Resolution::Ready(p),
            (s, _) => r == s,
        }),
        r is PerformLogin ==> state is LoadCredentials || state is PerformLogin,
{
    match (state, event) {
        (Resolution::CheckCache, ResolveEvent::CacheRead(c)) => {
            match cached_session_payload(c, key) {
                Some(p) => Resolution::Ready(p),
                None => Resolution::LoadCredentials,
            }
        },
        (Resolution::LoadCredentials, ResolveEvent::CredentialsRead(c)) => {
            match c {
                Some(p) => Resolution::PerformLogin(p),
                None => Resolution::NoCredentials,
            }
        },
        (Resolution::PerformLogin(_), ResolveEvent::LoginDone(o)) => {
            match o {
                Ok(p) => Resolution::StoreSession(p),
                Err(e) => Resolution::LoginFailed(AppError::from(e)),
            }
        },
        (Resolution::StoreSession(p), ResolveEvent::Stored) => Resolution::Ready(p),
        (s, _) => s,
    }
}

/// The session extractor's decision on a finished resolution: a ready
/// payload serves the request, no stored credentials is unauthorised, a
/// failed login surfaces its own error, and an unfinished resolution is an
/// internal fault.
pub fn require_session(resolution: Resolution) -> (r: Result<Vec<u8>, AppError>)
    ensures
        (match resolution {
            Resolution::Ready(p) => r == Result::<Vec<u8>, AppError>::Ok(p),
            Resolution::NoCredentials => r matches Err(e) && e is MissingCredentials,
            Resolution::LoginFailed(e) => r == Result::<Vec<u8>, AppError>::Err(e),
            _ => r matches Err(e) && e is InternalError,
        }),
{
    match resolution {
        Resolution::Ready(p) => Ok(p),
        Resolution::NoCredentials => Err(AppError::MissingCredentials),
        Resolution::LoginFailed(e) => Err(e),
        _ => Err(AppError::InternalError),
    }
}

/// The share path's decision on the owner's finished resolution: only a
/// ready session serves the link; an owner who has revoked their
/// credentials makes the link invalid; a failed login surfaces its own
/// error; an unfinished resolution is an internal fault.
pub fn share_owner_session(resolution: Resolution) -> (r: Result<Vec<u8>, AppError>)
    ensures
        (match resolution {
            Resolution::Ready(p) => r == Result::<Vec<u8>, AppError>::Ok(p),
            Resolution::NoCredentials => r matches Err(e) && e is InvalidShareLink,
            Resolution::LoginFailed(e) => r == Result::<Vec<u8>, AppError>::Err(e),
            _ => r matches Err(e) && e is InternalError,
        }),
{
    match resolution {
        Resolution::Ready(p) => Ok(p),
        Resolution::NoCredentials => Err(AppError::InvalidShareLink),
        Resolution::LoginFailed(e) => Err(e),
        _ => Err(AppError::InternalError),
    }
}

/// The classmate path's decision on the peer's finished resolution: a peer
/// row whose credentials have vanished in between is an internal fault,
/// not a missing-credentials answer about the caller.
pub fn classmate_session(resolution: Resolution) -> (r: Result<Vec<u8>, AppError>)
    ensures
        (match resolution {
            Resolution::Ready(p) => r == Result::<Vec<u8>, AppError>::Ok(p),
            Resolution::LoginFailed(e) => r == Result::<Vec<u8>, AppError>::Err(e),
            _ => r matches Err(e) && e is InternalError,
        }),
{
    match resolution {
        Resolution::Ready(p) => Ok(p),
        Resolution::LoginFailed(e) => Err(e),
        _ => Err(AppError::InternalError),
    }
}

/// The classmate lookup's decision: a peer row carries the owner whose
/// session serves the request; no peer registered in the class is not
/// found.
pub fn classmate_owner(peer: Option<[u8; 16]>) -> (r: Result<[u8; 16], AppError>)
    ensures
        r is Ok <==> peer is Some,
        r matches Ok(o) ==> peer matches Some(p) && o == p,
        r matches Err(e) ==> e matches AppError::NotFound(m) && m@ == "class not found"@,
{
    match peer {
        Some(p) => Ok(p),
        None => Err(AppError::NotFound("class not found")),
    }
}

} // verus!
