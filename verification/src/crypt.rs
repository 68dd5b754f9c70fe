//! Sealing of byte payloads: AES-256-GCM-SIV with a random nonce appended,
//! and the ascii85-armoured token form of the same envelope.

use vstd::prelude::*;

use aes_gcm_siv::aead::Aead;
use aes_gcm_siv::{Aes256GcmSiv, KeyInit};

use crate::ascii85;
use crate::hexs::AesKey;
use vstd::string::StringSliceAdditionalSpecFns;

verus! {

/// Length of the random nonce appended to every sealed blob.
pub const NONCE_LEN: usize = 12;

/// What AES-256-GCM-SIV sealing returns for a key, nonce and plaintext: the
/// ciphertext with the 16-byte authentication tag appended. The result is a
/// function of these three arguments alone.
pub uninterp spec fn seal_of(key: Seq<u8>, nonce: Seq<u8>, plaintext: Seq<u8>) -> Seq<u8>;

/// Relies on aes_gcm_siv::Aes256GcmSiv with aead::Aead::encrypt: deterministic
/// AEAD sealing, ciphertext as long as the plaintext plus the 16-byte postfix
/// tag; it fails only on plaintexts far beyond the length admitted here.
#[verifier::external_body]
fn aead_seal(key: &AesKey, nonce: &[u8], plaintext: &[u8]) -> (r: Vec<u8>)
    requires
        nonce@.len() == 12,
        plaintext@.len() <= 0x1000000,
    ensures
        r@ == seal_of(key.bytes@, nonce@, plaintext@),
        r@.len() == plaintext@.len() + 16,
{
    let cipher = Aes256GcmSiv::new(&aes_gcm_siv::Key::<Aes256GcmSiv>::from(key.bytes));
    let nonce = aes_gcm_siv::Nonce::try_from(nonce).expect("nonce is 12 bytes");
    cipher.encrypt(&nonce, plaintext).expect("plaintext length is within bounds")
}

/// Relies on aes_gcm_siv::Aes256GcmSiv with aead::Aead::decrypt: authenticated
/// opening yields a plaintext exactly when the input is the sealing of that
/// plaintext under the same key and nonce, and that plaintext is unique.
#[verifier::external_body]
fn aead_open(key: &AesKey, nonce: &[u8], ciphertext: &[u8]) -> (r: Option<Vec<u8>>)
    requires
        nonce@.len() == 12,
    ensures
        r matches Some(p) ==> ciphertext@ == seal_of(key.bytes@, nonce@, p@),
        forall|p: Seq<u8>| ciphertext@ == seal_of(key.bytes@, nonce@, p) ==> r is Some,
        r matches Some(p) ==> forall|q: Seq<u8>|
            ciphertext@ == seal_of(key.bytes@, nonce@, q) ==> q == p@,
{
    let cipher = Aes256GcmSiv::new(&aes_gcm_siv::Key::<Aes256GcmSiv>::from(key.bytes));
    let nonce = aes_gcm_siv::Nonce::try_from(nonce).expect("nonce is 12 bytes");
    cipher.decrypt(&nonce, ciphertext).ok()
}

/// Relies on rand::fill: fills the buffer from the thread's cryptographic
/// generator. Nothing is promised of the values, only of the length.
#[verifier::external_body]
pub(crate) fn random_bytes(n: usize) -> (r: Vec<u8>)
    ensures
        r@.len() == n,
{
    let mut buf = vec![0u8; n];
    rand::fill(&mut buf[..]);
    buf
}

/// Errors of the sealed-blob and token codecs.
#[derive(Debug, Clone, Copy, PartialEq, Eq)]
pub enum CryptoError {
    /// Authenticated decryption rejected the blob.
    Aes,
    /// The armouring around a token is not valid ascii85.
    Ascii85(ascii85::Ascii85Error),
    /// The blob is too short to carry a nonce.
    CiphertextTooShort,
}

/// A blob is the sealing of `plaintext` under `key`: the ciphertext under the
/// nonce carried in the blob's last twelve bytes, with that nonce appended.
pub open spec fn spec_is_sealed_blob(blob: Seq<u8>, key: Seq<u8>, plaintext: Seq<u8>) -> bool {
    blob.len() >= 12 && blob.take(blob.len() - 12) == seal_of(
        key,
        blob.skip(blob.len() - 12),
        plaintext,
    )
}

/// Seal a payload: encrypt under a fresh random nonce and append the nonce.
/// The length cap is this library's own: credential and session payloads
/// are a few kilobytes, and the cap stays far below the cipher's 2^36-byte
/// limit, so the sealing call can never fail.
pub fn encrypt_bytes(plaintext: &[u8], key: &AesKey) -> (r: Vec<u8>)
    requires
        plaintext@.len() <= 0x1000000,
    ensures
        spec_is_sealed_blob(r@, key.bytes@, plaintext@),
        r@.len() == plaintext@.len() + 28,
{
    let nonce = random_bytes(NONCE_LEN);
    let mut out = aead_seal(key, nonce.as_slice(), plaintext);
    let ghost sealed = out@;
    let mut i: usize = 0;
    while i < nonce.len()
        invariant
            nonce@.len() == 12,
            i <= 12,
            out@ == sealed + nonce@.take(i as int),
        decreases 12 - i,
    {
        let b = nonce[i];
        out.push(b);
        proof {
            assert(out@ =~= sealed + nonce@.take(i + 1));
        }
        i += 1;
    }
    proof {
        assert(out@ =~= sealed + nonce@);
        assert(out@.take(out@.len() - 12) =~= sealed);
        assert(out@.skip(out@.len() - 12) =~= nonce@);
    }
    out
}

/// Open a sealed blob: split off the nonce and decrypt. Yields exactly the
/// payload the blob seals, and fails on everything that seals no payload.
pub fn decrypt_bytes(bytes: &[u8], key: &AesKey) -> (r: Result<Vec<u8>, CryptoError>)
    ensures
        r matches Ok(p) ==> spec_is_sealed_blob(bytes@, key.bytes@, p@),
        forall|p: Seq<u8>| spec_is_sealed_blob(bytes@, key.bytes@, p) ==> r is Ok,
        r matches Ok(p) ==> forall|q: Seq<u8>|
            spec_is_sealed_blob(bytes@, key.bytes@, q) ==> q == p@,
        r matches Err(e) ==> (e == CryptoError::CiphertextTooShort <==> bytes@.len() < 12),
        r matches Err(e) ==> (bytes@.len() >= 12 ==> e == CryptoError::Aes),
{
    let len = bytes.len();
    if len < NONCE_LEN {
        return Err(CryptoError::CiphertextTooShort);
    }
    let (ciphertext, nonce) = bytes.split_at(len - NONCE_LEN);
    match aead_open(key, nonce, ciphertext) {
        Some(p) => Ok(p),
        None => Err(CryptoError::Aes),
    }
}

/// Law: sealing then opening gives the payload back. A blob formed as
/// [`encrypt_bytes`] forms it — sealing plus appended nonce — is a sealed
/// blob for exactly the payload that went in, so [`decrypt_bytes`] is bound
/// by its contract to return that payload.
pub proof fn lemma_sealed_blob_round_trip(
    key: Seq<u8>,
    nonce: Seq<u8>,
    plaintext: Seq<u8>,
    blob: Seq<u8>,
)
    requires
        nonce.len() == 12,
        blob == seal_of(key, nonce, plaintext) + nonce,
    ensures
        spec_is_sealed_blob(blob, key, plaintext),
        forall|q: Seq<u8>| spec_is_sealed_blob(blob, key, q) ==> seal_of(key, nonce, q) == seal_of(
            key,
            nonce,
            plaintext,
        ),
{
    assert(blob.take(blob.len() - 12) =~= seal_of(key, nonce, plaintext));
    assert(blob.skip(blob.len() - 12) =~= nonce);
}

/// Seal a payload and armour it as an ascii85 token string.
pub fn encrypt(plaintext: &[u8], key: &AesKey) -> (r: String)
    requires
        plaintext@.len() <= 0x1000000,
    ensures
        exists|blob: Seq<u8>|
            #[trigger] spec_is_sealed_blob(blob, key.bytes@, plaintext@) && r@
                == ascii85::spec_encode(blob),
{
    let blob = encrypt_bytes(plaintext, key);
    let out = ascii85::encode(blob.as_slice());
    proof {
        assert(spec_is_sealed_blob(blob@, key.bytes@, plaintext@) && out@
            == ascii85::spec_encode(blob@));
    }
    out
}

/// Strip the ascii85 armour of a token and open the blob inside.
pub fn decrypt(val: &str, key: &AesKey) -> (r: Result<Vec<u8>, CryptoError>)
    ensures
        r matches Ok(p) ==> (ascii85::spec_decode(val.spec_bytes()) matches Ok(blob)
            && spec_is_sealed_blob(blob, key.bytes@, p@)),
        r matches Err(e) ==> (e matches CryptoError::Ascii85(a85) ==> ascii85::spec_decode(
            val.spec_bytes(),
        ) == Result::<Seq<u8>, ascii85::Ascii85Error>::Err(a85)),
        forall|blob: Seq<u8>, p: Seq<u8>|
            ascii85::spec_decode(val.spec_bytes()) == Result::<
                Seq<u8>,
                ascii85::Ascii85Error,
            >::Ok(blob) && #[trigger] spec_is_sealed_blob(blob, key.bytes@, p) ==> r is Ok,
{
    let blob = match ascii85::decode(val) {
        Ok(b) => b,
        Err(e) => {
            return Err(CryptoError::Ascii85(e));
        },
    };
    match decrypt_bytes(blob.as_slice(), key) {
        Ok(p) => Ok(p),
        Err(e) => Err(e),
    }
}

} // verus!
