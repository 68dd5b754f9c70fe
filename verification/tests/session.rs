use skool::credentials::{
    get_credentials_response, open_credentials_data, save_response, school_from_bytes,
    Credentials, Private, Public, PublicCredentials,
};
use skool::crypt::encrypt_bytes;
use skool::hexs::AesKey;
use skool::error::AppError;
use skool::session::{
    cache_key, cached_session_payload, classmate_owner, classmate_session, require_session,
    resolve_step, save_to_cache, share_owner_session, Resolution, ResolveEvent, Session,
};

fn session_test_key() -> AesKey {
    AesKey { bytes: [9; 32] }
}

fn user_id() -> [u8; 16] {
    [
        0x66, 0x2c, 0x31, 0x31, 0xb1, 0x81, 0x40, 0xdc, 0x88, 0xb4, 0x05, 0x2b, 0x18, 0xce,
        0x53, 0x4b,
    ]
}

fn creds() -> Private {
    Private::Skolplattformen {
        username: "alice".to_string(),
        password: "hunter2".to_string(),
    }
}

#[test]
fn cache_key_shape() {
    assert_eq!(
        cache_key(&user_id()),
        "v0:sessions:662c3131-b181-40dc-88b4-052b18ce534b"
    );
}

#[test]
fn session_ttl_is_fifteen_minutes() {
    let session = Session::Skolplattformen(skool::login::Session {
        cookies: vec![],
        scope: "Z".to_string(),
    });
    assert_eq!(session.ttl(), 900);
}

#[test]
fn cache_round_trip_and_miss_on_garbage() {
    let key = session_test_key();
    let payload = b"session payload".to_vec();
    let write = save_to_cache(&payload, &user_id(), &key);
    assert_eq!(write.key, cache_key(&user_id()));
    assert_eq!(write.ttl_seconds, 900);
    assert_eq!(
        cached_session_payload(Some(write.value.clone()), &key),
        Some(payload)
    );
    // a corrupted value is a miss, not an error
    let mut corrupt = write.value.clone();
    corrupt[0] ^= 1;
    assert_eq!(cached_session_payload(Some(corrupt), &key), None);
    assert_eq!(cached_session_payload(None, &key), None);
}

#[test]
fn cache_fill_logs_in_once_on_miss_and_never_on_hit() {
    let key = session_test_key();
    let payload = b"the session".to_vec();

    // Miss path: exactly one login is asked for.
    let mut logins = 0;
    let state = resolve_step(Resolution::CheckCache, ResolveEvent::CacheRead(None), &key);
    assert!(matches!(state, Resolution::LoadCredentials));
    let state = resolve_step(state, ResolveEvent::CredentialsRead(Some(creds())), &key);
    assert!(matches!(state, Resolution::PerformLogin(_)));
    logins += 1;
    let state = resolve_step(state, ResolveEvent::LoginDone(Ok(payload.clone())), &key);
    assert!(matches!(state, Resolution::StoreSession(_)));
    let state = resolve_step(state, ResolveEvent::Stored, &key);
    match state {
        Resolution::Ready(p) => assert_eq!(p, payload),
        other => panic!("unexpected: {:?}", resolution_name(&other)),
    }
    assert_eq!(logins, 1);

    // Hit path within the TTL: zero logins.
    let sealed = save_to_cache(&payload, &user_id(), &key).value;
    let state = resolve_step(
        Resolution::CheckCache,
        ResolveEvent::CacheRead(Some(sealed)),
        &key,
    );
    match state {
        Resolution::Ready(p) => assert_eq!(p, payload),
        other => panic!("login would have been needed: {:?}", resolution_name(&other)),
    }
}

fn resolution_name(r: &Resolution) -> &'static str {
    match r {
        Resolution::CheckCache => "CheckCache",
        Resolution::LoadCredentials => "LoadCredentials",
        Resolution::PerformLogin(_) => "PerformLogin",
        Resolution::StoreSession(_) => "StoreSession",
        Resolution::Ready(_) => "Ready",
        Resolution::NoCredentials => "NoCredentials",
        Resolution::LoginFailed(_) => "LoginFailed",
    }
}

#[test]
fn missing_credentials_end_resolution() {
    let key = session_test_key();
    let state = resolve_step(Resolution::CheckCache, ResolveEvent::CacheRead(None), &key);
    let state = resolve_step(state, ResolveEvent::CredentialsRead(None), &key);
    assert!(matches!(state, Resolution::NoCredentials));
}

#[test]
fn extractor_maps_resolutions_to_responses() {
    assert_eq!(
        require_session(Resolution::Ready(b"p".to_vec())).unwrap(),
        b"p".to_vec()
    );
    assert!(matches!(
        require_session(Resolution::NoCredentials),
        Err(AppError::MissingCredentials)
    ));
    assert!(matches!(
        require_session(Resolution::LoginFailed(AppError::BadRequest("bad credentials"))),
        Err(AppError::BadRequest("bad credentials"))
    ));
    assert!(matches!(
        require_session(Resolution::CheckCache),
        Err(AppError::InternalError)
    ));
}

#[test]
fn share_path_maps_revoked_owner_to_invalid_link() {
    assert!(matches!(
        share_owner_session(Resolution::NoCredentials),
        Err(AppError::InvalidShareLink)
    ));
    assert_eq!(
        share_owner_session(Resolution::Ready(b"s".to_vec())).unwrap(),
        b"s".to_vec()
    );
    assert!(matches!(
        share_owner_session(Resolution::LoginFailed(AppError::InternalError)),
        Err(AppError::InternalError)
    ));
}

#[test]
fn classmate_path_maps_vanished_peer_to_internal_fault() {
    assert!(matches!(
        classmate_session(Resolution::NoCredentials),
        Err(AppError::InternalError)
    ));
    assert_eq!(
        classmate_session(Resolution::Ready(b"s".to_vec())).unwrap(),
        b"s".to_vec()
    );
}

#[test]
fn logout_purge_makes_the_key_a_miss() {
    // The purge deletes exactly the user's cache key; a later read of that
    // key finds nothing and resolution must go back to the credentials.
    let key = session_test_key();
    let payload = b"the session".to_vec();
    let write = save_to_cache(&payload, &user_id(), &key);
    let mut store: Vec<(String, Vec<u8>)> = vec![(write.key.clone(), write.value.clone())];

    let purge_key = cache_key(&user_id());
    store.retain(|(k, _)| *k != purge_key);
    let cached = store
        .iter()
        .find(|(k, _)| *k == cache_key(&user_id()))
        .map(|(_, v)| v.clone());
    assert!(cached.is_none());
    let state = resolve_step(Resolution::CheckCache, ResolveEvent::CacheRead(cached), &key);
    assert!(matches!(state, Resolution::LoadCredentials));
}

#[test]
fn credentials_row_opens_or_reads_as_unset() {
    let key = session_test_key();
    let sealed = encrypt_bytes(b"private blob", &key);
    assert_eq!(
        open_credentials_data(&sealed, &key),
        Some(b"private blob".to_vec())
    );
    assert_eq!(open_credentials_data(&[1, 2, 3], &key), None);
    let mut corrupt = sealed.clone();
    let last = corrupt.len() - 1;
    corrupt[last] ^= 0x80;
    assert_eq!(open_credentials_data(&corrupt, &key), None);
}

#[test]
fn public_projection_strips_password() {
    let public = Public::from(creds());
    match public {
        Public::Skolplattformen { username } => assert_eq!(username, "alice"),
    }
}

#[test]
fn credentials_projection_keeps_metadata() {
    let c = Credentials {
        updated_at: 123,
        class: Some("ref".to_string()),
        school: None,
        private: creds(),
    };
    let p = PublicCredentials::from(c);
    assert_eq!(p.updated_at, 123);
    assert_eq!(p.class.as_deref(), Some("ref"));
    assert!(p.school.is_none());
}

#[test]
fn get_credentials_maps_absence_to_not_found() {
    match get_credentials_response(None) {
        Err(AppError::NotFound(m)) => assert_eq!(m, "no credentials set"),
        other => panic!("unexpected: {:?}", other.is_ok()),
    }
    let found = Credentials {
        updated_at: 5,
        class: None,
        school: None,
        private: creds(),
    };
    assert!(get_credentials_response(Some(found)).is_ok());
}

#[test]
fn save_degrades_to_null_school_when_snoop_fails() {
    let r = save_response(creds(), 77, None);
    assert!(r.school.is_none());
    assert!(r.class.is_none());
    assert_eq!(r.updated_at, 77);
}

#[test]
fn school_column_must_be_32_bytes() {
    assert!(school_from_bytes(&vec![0; 32]).is_some());
    assert!(school_from_bytes(&vec![0; 31]).is_none());
}

#[test]
fn classmate_lookup_maps_absence_to_not_found() {
    assert!(classmate_owner(Some([3; 16])).is_ok());
    assert!(matches!(
        classmate_owner(None),
        Err(AppError::NotFound("class not found"))
    ));
}
