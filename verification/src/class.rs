//! School hashes and registered classes.

use vstd::prelude::*;

use crate::error::AppError;
use crate::schedule::Filters;
use crate::strutil::bytes32_from_vec;
use crate::System;
use vstd::string::StringSliceAdditionalSpecFns;
use vstd::utf8::encode_utf8;

verus! {

/// What the BLAKE3 hash of a byte string is: a 32-byte digest, a function of
/// the input alone.
pub uninterp spec fn blake3_of(data: Seq<u8>) -> Seq<u8>;

/// Relies on blake3::hash: the 32-byte BLAKE3 digest of the input bytes.
#[verifier::external_body]
fn blake3_digest(data: &[u8]) -> (r: Vec<u8>)
    ensures
        r@ == blake3_of(data@),
        r@.len() == 32,
{
    blake3::hash(data).as_bytes().to_vec()
}

/// The 32-byte hash identifying a school across systems: the BLAKE3 digest
/// of the system's tag byte followed by the school's reference bytes.
#[derive(Debug, Clone, Copy, PartialEq, Eq)]
pub struct SchoolHash {
    pub bytes: [u8; 32],
}

impl SchoolHash {
    /// Hash input for a system and reference: the tag byte, then the bytes.
    pub open spec fn spec_input(system: System, reference: Seq<u8>) -> Seq<u8> {
        seq![system.tag()] + reference
    }

    /// Hash a school reference.
    pub fn new(system: System, reference: &[u8]) -> (r: SchoolHash)
        ensures
            r.bytes@ == blake3_of(Self::spec_input(system, reference@)),
    {
        let mut input: Vec<u8> = Vec::new();
        input.push(system.as_u8());
        input.extend_from_slice(reference);
        proof {
            assert(input@ =~= Self::spec_input(system, reference@));
        }
        let digest = blake3_digest(input.as_slice());
        SchoolHash { bytes: bytes32_from_vec(&digest) }
    }
}

/// Law: the hash input separates its parts. Two `(system, reference)` pairs
/// produce the same hash input only when the tags and the references are
/// both equal, so distinct pairs are told apart up to the collision
/// resistance of the digest.
pub proof fn lemma_school_hash_input_injective(t1: u8, r1: Seq<u8>, t2: u8, r2: Seq<u8>)
    requires
        seq![t1] + r1 == seq![t2] + r2,
    ensures
        t1 == t2,
        r1 == r2,
{
    let a = seq![t1] + r1;
    let b = seq![t2] + r2;
    assert(a[0] == t1);
    assert(b[0] == t2);
    assert(a.len() == 1 + r1.len());
    assert(b.len() == 1 + r2.len());
    assert(r1.len() == r2.len());
    assert forall|i: int| 0 <= i < r1.len() implies r1[i] == r2[i] by {
        assert(a[i + 1] == r1[i]);
        assert(a[i + 1] == b[i + 1]);
        assert(b[i + 1] == r2[i]);
    }
    assert(r1 =~= r2);
}

/// A registered class: the school it belongs to, the upstream reference and
/// a display name.
#[derive(Debug, Clone)]
pub struct Class {
    pub school: SchoolHash,
    pub reference: String,
    pub name: String,
}

/// The caller's own class, read off the unit's filters: the school hash of
/// the unit and the sole class of the filter list. Any other number of
/// classes is an internal error.
pub fn from_filters(unit_guid: &str, filters: &Filters) -> (r: Result<Class, AppError>)
    ensures
        r is Ok <==> filters.classes@.len() == 1,
        r matches Ok(c) ==> c.school.bytes@ == blake3_of(
            SchoolHash::spec_input(System::Skolplattformen, encode_utf8(unit_guid@)),
        ),
        r matches Ok(c) ==> c.reference@ == filters.classes@[0].group_guid@ && c.name@
            == filters.classes@[0].group_name@,
        r matches Err(e) ==> e is InternalError,
{
    if filters.classes.len() != 1 {
        return Err(AppError::InternalError);
    }
    let school = SchoolHash::new(System::Skolplattformen, unit_guid.as_bytes());
    let class = &filters.classes[0];
    Ok(Class { school, reference: class.group_guid.clone(), name: class.group_name.clone() })
}

} // verus!
