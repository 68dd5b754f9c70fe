//! Hexadecimal text: key parsing and lower-case encoding of identifiers.

use vstd::prelude::*;

use crate::strutil::string_push;
use vstd::string::StringSliceAdditionalSpecFns;
use vstd::string::StringExecFns;

verus! {

/// Errors of [`decode_hex`] and [`parse_hex_key`].
#[derive(Debug, Clone, Copy, PartialEq, Eq)]
pub enum HexError {
    /// The input length is odd, or not the length the caller demands.
    InvalidLength,
    /// A character outside `0-9a-fA-F` appeared.
    InvalidChar,
}

/// Whether a byte is an ASCII hexadecimal digit.
pub open spec fn spec_is_hex_digit(b: u8) -> bool {
    (48 <= b <= 57) || (97 <= b <= 102) || (65 <= b <= 70)
}

/// Value of an ASCII hexadecimal digit.
pub open spec fn spec_hex_nibble(b: u8) -> u8 {
    if 48 <= b <= 57 {
        (b - 48) as u8
    } else if 97 <= b <= 102 {
        (b - 87) as u8
    } else if 65 <= b <= 70 {
        (b - 55) as u8
    } else {
        0
    }
}

/// Whether a byte string is well-formed hexadecimal text.
pub open spec fn spec_hex_ok(s: Seq<u8>) -> bool {
    s.len() % 2 == 0 && (forall|i: int| 0 <= i < s.len() ==> spec_is_hex_digit(#[trigger] s[i]))
}

/// The bytes hexadecimal text stands for, two digits each.
pub open spec fn spec_hex_bytes(s: Seq<u8>) -> Seq<u8> {
    Seq::new((s.len() / 2) as nat, |k: int| (spec_hex_nibble(s[2 * k]) * 16 + spec_hex_nibble(
        s[2 * k + 1],
    )) as u8)
}

/// Decode hexadecimal text to bytes. Succeeds exactly on even-length inputs
/// made of hexadecimal digits.
pub fn decode_hex(s: &str) -> (r: Result<Vec<u8>, HexError>)
    ensures
        r is Ok <==> spec_hex_ok(s.spec_bytes()),
        r matches Ok(v) ==> v@ == spec_hex_bytes(s.spec_bytes()),
        r matches Err(e) ==> (e == HexError::InvalidLength <==> s.spec_bytes().len() % 2 != 0),
{
    let bytes = s.as_bytes_vec();
    if bytes.len() % 2 != 0 {
        return Err(HexError::InvalidLength);
    }
    let n = bytes.len() / 2;
    let mut out: Vec<u8> = Vec::new();
    let mut k: usize = 0;
    while k < n
        invariant
            bytes@ == s.spec_bytes(),
            bytes@.len() % 2 == 0,
            bytes@.len() <= usize::MAX,
            n == bytes@.len() / 2,
            k <= n,
            out@.len() == k,
            forall|i: int| 0 <= i < 2 * k ==> spec_is_hex_digit(#[trigger] bytes@[i]),
            forall|i: int|
                0 <= i < k ==> out@[i] == #[trigger] spec_hex_bytes(s.spec_bytes())[i],
        decreases n - k,
    {
        proof {
            assert(2 * k + 1 < bytes@.len());
        }
        let hi = bytes[2 * k];
        let lo = bytes[2 * k + 1];
        if !is_hex_digit(hi) || !is_hex_digit(lo) {
            return Err(HexError::InvalidChar);
        }
        let b = hex_nibble(hi) * 16 + hex_nibble(lo);
        out.push(b);
        k += 1;
    }
    proof {
        assert(out@ =~= spec_hex_bytes(s.spec_bytes()));
    }
    Ok(out)
}

fn is_hex_digit(b: u8) -> (r: bool)
    ensures
        r == spec_is_hex_digit(b),
{
    (48 <= b && b <= 57) || (97 <= b && b <= 102) || (65 <= b && b <= 70)
}

fn hex_nibble(b: u8) -> (r: u8)
    ensures
        r == spec_hex_nibble(b),
{
    if 48 <= b && b <= 57 {
        b - 48
    } else if 97 <= b && b <= 102 {
        b - 87
    } else if 65 <= b && b <= 70 {
        b - 55
    } else {
        0
    }
}

/// Lower-case hexadecimal digit character for a nibble value.
pub open spec fn spec_hex_char(n: u8) -> char {
    if n < 10 {
        ((48 + n) as u8) as char
    } else {
        ((87 + n) as u8) as char
    }
}

/// Lower-case hexadecimal text of a byte string, two digits per byte.
pub open spec fn spec_hex_of(bytes: Seq<u8>) -> Seq<char> {
    Seq::new(
        (bytes.len() * 2) as nat,
        |i: int|
            if i % 2 == 0 {
                spec_hex_char(bytes[i / 2] / 16)
            } else {
                spec_hex_char((bytes[i / 2] % 16) as u8)
            },
    )
}

/// Encode bytes as lower-case hexadecimal text.
pub fn encode_hex(bytes: &[u8]) -> (r: String)
    ensures
        r@ == spec_hex_of(bytes@),
{
    let mut out = String::new();
    let len = bytes.len();
    let mut k: usize = 0;
    while k < len
        invariant
            len == bytes@.len(),
            k <= len,
            out@.len() == 2 * k,
            forall|i: int| 0 <= i < 2 * k ==> out@[i] == #[trigger] spec_hex_of(bytes@)[i],
        decreases len - k,
    {
        let b = bytes[k];
        string_push(&mut out, hex_char(b / 16));
        string_push(&mut out, hex_char(b % 16));
        k += 1;
    }
    proof {
        assert(out@ =~= spec_hex_of(bytes@));
    }
    out
}

fn hex_char(n: u8) -> (r: char)
    requires
        n < 16,
    ensures
        r == spec_hex_char(n),
{
    if n < 10 {
        (48 + n) as char
    } else {
        (87 + n) as char
    }
}

/// The hyphenated text form of a 16-byte id: 8-4-4-4-12 hexadecimal digits.
pub open spec fn spec_uuid_hyphenated(b: Seq<u8>) -> Seq<char> {
    spec_hex_of(b.subrange(0, 4)) + seq!['-'] + spec_hex_of(b.subrange(4, 6)) + seq!['-']
        + spec_hex_of(b.subrange(6, 8)) + seq!['-'] + spec_hex_of(b.subrange(8, 10)) + seq!['-']
        + spec_hex_of(b.subrange(10, 16))
}

fn hex_range16(b: &[u8; 16], from: usize, to: usize) -> (r: String)
    requires
        from <= to <= 16,
    ensures
        r@ == spec_hex_of(b@.subrange(from as int, to as int)),
{
    let mut part: Vec<u8> = Vec::new();
    let mut i: usize = from;
    while i < to
        invariant
            from <= i <= to <= 16,
            part@ == b@.subrange(from as int, i as int),
        decreases to - i,
    {
        part.push(b[i]);
        proof {
            assert(part@ =~= b@.subrange(from as int, i + 1));
        }
        i += 1;
    }
    encode_hex(part.as_slice())
}

/// Format a 16-byte id in its hyphenated text form.
pub fn uuid_hyphenated(b: &[u8; 16]) -> (r: String)
    ensures
        r@ == spec_uuid_hyphenated(b@),
{
    let mut out = hex_range16(b, 0, 4);
    string_push(&mut out, '-');
    out.append(hex_range16(b, 4, 6).as_str());
    string_push(&mut out, '-');
    out.append(hex_range16(b, 6, 8).as_str());
    string_push(&mut out, '-');
    out.append(hex_range16(b, 8, 10).as_str());
    string_push(&mut out, '-');
    out.append(hex_range16(b, 10, 16).as_str());
    proof {
        assert(out@ =~= spec_uuid_hyphenated(b@));
    }
    out
}

/// The process-wide AES key: exactly 32 bytes, read-only after startup.
#[derive(Debug, Clone, Copy)]
pub struct AesKey {
    pub bytes: [u8; 32],
}

/// Parse a 64-digit hexadecimal string into an AES key. Succeeds exactly on
/// 64 hexadecimal digits.
pub fn parse_hex_key(s: &str) -> (r: Result<AesKey, HexError>)
    ensures
        r is Ok <==> (spec_hex_ok(s.spec_bytes()) && s.spec_bytes().len() == 64),
        r matches Ok(k) ==> k.bytes@ == spec_hex_bytes(s.spec_bytes()),
{
    let decoded = decode_hex(s)?;
    if decoded.len() != 32 {
        return Err(HexError::InvalidLength);
    }
    let mut key: [u8; 32] = [0; 32];
    let mut i: usize = 0;
    while i < 32
        invariant
            i <= 32,
            decoded@.len() == 32,
            forall|j: int| 0 <= j < i ==> key@[j] == decoded@[j],
        decreases 32 - i,
    {
        key[i] = decoded[i];
        i += 1;
    }
    proof {
        assert(key@ =~= decoded@);
    }
    Ok(AesKey { bytes: key })
}

} // verus!
