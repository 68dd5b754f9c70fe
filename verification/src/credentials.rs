//! Stored credentials and their public projection: the password never
//! leaves the private form.

use vstd::prelude::*;

use crate::class::{Class, SchoolHash};
use crate::crypt::{decrypt_bytes, spec_is_sealed_blob};
use crate::error::AppError;
use crate::hexs::AesKey;
use crate::strutil::bytes32_from_vec;

verus! {

/// A stored credential: the secret form.
#[derive(Debug, Clone)]
pub enum Private {
    Skolplattformen { username: String, password: String },
}

/// The public projection of a credential: the password is stripped.
#[derive(Debug, Clone)]
pub enum Public {
    Skolplattformen { username: String },
}

/// What the projection keeps: the username alone.
pub open spec fn spec_public_of(p: Private) -> Public {
    match p {
        Private::Skolplattformen { username, password: _ } => Public::Skolplattformen { username },
    }
}

impl From<Private> for Public {
    fn from(p: Private) -> (r: Public) {
        match p {
            Private::Skolplattformen { username, password: _ } => Public::Skolplattformen {
                username,
            },
        }
    }
}

impl vstd::std_specs::convert::FromSpecImpl<Private> for Public {
    open spec fn obeys_from_spec() -> bool {
        true
    }

    open spec fn from_spec(p: Private) -> Public {
        spec_public_of(p)
    }
}

/// A credential row as the store holds it, decrypted.
#[derive(Debug, Clone)]
pub struct Credentials {
    pub updated_at: i64,
    pub class: Option<String>,
    pub school: Option<SchoolHash>,
    pub private: Private,
}

/// A credential row as a caller may see it.
#[derive(Debug, Clone)]
pub struct PublicCredentials {
    pub updated_at: i64,
    pub class: Option<String>,
    pub school: Option<SchoolHash>,
    pub public: Public,
}

/// What the public row keeps of a private one.
pub open spec fn spec_public_credentials_of(c: Credentials) -> PublicCredentials {
    PublicCredentials {
        updated_at: c.updated_at,
        class: c.class,
        school: c.school,
        public: spec_public_of(c.private),
    }
}

impl From<Credentials> for PublicCredentials {
    fn from(c: Credentials) -> (r: PublicCredentials) {
        let Credentials { updated_at, class, school, private } = c;
        PublicCredentials { updated_at, class, school, public: Public::from(private) }
    }
}

impl vstd::std_specs::convert::FromSpecImpl<Credentials> for PublicCredentials {
    open spec fn obeys_from_spec() -> bool {
        true
    }

    open spec fn from_spec(c: Credentials) -> PublicCredentials {
        spec_public_credentials_of(c)
    }
}

/// Open the sealed payload of a stored credential row. A row that does not
/// open — malformed or tampered — reads as no credentials set, never as an
/// error.
pub fn open_credentials_data(data: &[u8], key: &AesKey) -> (r: Option<Vec<u8>>)
    ensures
        r matches Some(p) ==> spec_is_sealed_blob(data@, key.bytes@, p@),
        (exists|p: Seq<u8>| spec_is_sealed_blob(data@, key.bytes@, p)) <==> r is Some,
{
    match decrypt_bytes(data, key) {
        Ok(p) => Some(p),
        Err(_) => None,
    }
}

/// The school column read back: anything but exactly 32 bytes reads as no
/// school.
pub fn school_from_bytes(v: &Vec<u8>) -> (r: Option<SchoolHash>)
    ensures
        r is Some <==> v@.len() == 32,
        r matches Some(s) ==> s.bytes@ == v@,
{
    if v.len() == 32 {
        Some(SchoolHash { bytes: bytes32_from_vec(v) })
    } else {
        None
    }
}

/// The response of a credential save: the public projection, with school
/// and class taken from the snooped class when the snoop succeeded and
/// null otherwise — the save itself succeeds either way.
pub fn save_response(private: Private, updated_at: i64, snooped: Option<Class>) -> (r:
    PublicCredentials)
    ensures
        r.public == spec_public_of(private),
        r.updated_at == updated_at,
        snooped matches Some(c) ==> (r.school matches Some(s) && s.bytes@ == c.school.bytes@)
            && (r.class matches Some(cr) && cr@ == c.reference@),
        snooped is None ==> r.school is None && r.class is None,
{
    match snooped {
        Some(c) => PublicCredentials {
            updated_at,
            class: Some(c.reference),
            school: Some(c.school),
            public: Public::from(private),
        },
        None => PublicCredentials {
            updated_at,
            class: None,
            school: None,
            public: Public::from(private),
        },
    }
}

/// The read endpoint's decision: a found row is projected, an absent one is
/// not found rather than unauthorised.
pub fn get_credentials_response(found: Option<Credentials>) -> (r: Result<
    PublicCredentials,
    AppError,
>)
    ensures
        r is Ok <==> found is Some,
        r matches Ok(p) ==> found matches Some(c) && p == spec_public_credentials_of(c),
        r matches Err(e) ==> e matches AppError::NotFound(m) && m@ == "no credentials set"@,
{
    match found {
        Some(c) => Ok(PublicCredentials::from(c)),
        None => Err(AppError::NotFound("no credentials set")),
    }
}

} // verus!
