use skool::crypt::{decrypt, decrypt_bytes, encrypt, encrypt_bytes, CryptoError};
use skool::hexs::{decode_hex, encode_hex, parse_hex_key, uuid_hyphenated, AesKey, HexError};

fn test_key() -> AesKey {
    let mut bytes = [0u8; 32];
    for (i, b) in bytes.iter_mut().enumerate() {
        *b = i as u8;
    }
    AesKey { bytes }
}

#[test]
fn sealed_blob_round_trip() {
    let key = test_key();
    let plaintext = b"the credential payload".to_vec();
    let blob = encrypt_bytes(&plaintext, &key);
    assert_eq!(blob.len(), plaintext.len() + 28);
    let back = decrypt_bytes(&blob, &key).unwrap();
    assert_eq!(back, plaintext);
}

#[test]
fn sealed_blob_rejects_every_single_bit_flip() {
    let key = test_key();
    let plaintext = b"tamper-evident".to_vec();
    let blob = encrypt_bytes(&plaintext, &key);
    for i in 0..blob.len() {
        for bit in 0..8 {
            let mut mutated = blob.clone();
            mutated[i] ^= 1 << bit;
            assert!(decrypt_bytes(&mutated, &key).is_err());
        }
    }
}

#[test]
fn sealed_blob_rejects_wrong_key() {
    let key = test_key();
    let mut other = test_key();
    other.bytes[0] ^= 1;
    let blob = encrypt_bytes(b"secret", &key);
    assert!(decrypt_bytes(&blob, &other).is_err());
}

#[test]
fn short_blob_is_too_short() {
    let key = test_key();
    assert!(matches!(
        decrypt_bytes(&[1, 2, 3], &key),
        Err(CryptoError::CiphertextTooShort)
    ));
}

#[test]
fn token_round_trip() {
    let key = test_key();
    let token = encrypt(b"session state", &key);
    assert!(token.is_ascii());
    let back = decrypt(&token, &key).unwrap();
    assert_eq!(back, b"session state".to_vec());
}

#[test]
fn token_rejects_bad_armour() {
    let key = test_key();
    assert!(matches!(
        decrypt("z", &key),
        Err(CryptoError::Ascii85(_))
    ));
}

#[test]
fn fresh_nonces_differ() {
    // Sealing the same payload twice under the same key must give different
    // blobs: the nonce is drawn fresh each time.
    let key = test_key();
    let a = encrypt_bytes(b"same payload", &key);
    let b = encrypt_bytes(b"same payload", &key);
    assert_ne!(a, b);
}

#[test]
fn hex_round_trip() {
    let bytes = vec![0xab, 0xcd, 0x01, 0xff];
    let text = encode_hex(&bytes);
    assert_eq!(text, "abcd01ff");
    assert_eq!(decode_hex(&text).unwrap(), bytes);
}

#[test]
fn hex_rejects_bad_input() {
    assert!(matches!(decode_hex("abc"), Err(HexError::InvalidLength)));
    assert!(matches!(decode_hex("zz"), Err(HexError::InvalidChar)));
}

#[test]
fn parse_hex_key_accepts_64_digits() {
    let text = "000102030405060708090a0b0c0d0e0f101112131415161718191a1b1c1d1e1f";
    let key = parse_hex_key(text).unwrap();
    assert_eq!(key.bytes, test_key().bytes);
}

#[test]
fn parse_hex_key_rejects_wrong_length() {
    assert!(parse_hex_key("abcd").is_err());
    assert!(parse_hex_key("").is_err());
}

#[test]
fn uuid_hyphenated_format() {
    let id = [
        0x66, 0x2c, 0x31, 0x31, 0xb1, 0x81, 0x40, 0xdc, 0x88, 0xb4, 0x05, 0x2b, 0x18, 0xce,
        0x53, 0x4b,
    ];
    assert_eq!(uuid_hyphenated(&id), "662c3131-b181-40dc-88b4-052b18ce534b");
    assert_eq!(
        uuid_hyphenated(&id),
        uuid::Uuid::from_bytes(id).hyphenated().to_string()
    );
}
