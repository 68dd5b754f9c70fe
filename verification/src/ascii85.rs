//! Ascii85 armouring of binary blobs, used for string-shaped tokens.

use vstd::prelude::*;

use crate::strutil::string_push;
use vstd::string::StringSliceAdditionalSpecFns;

verus! {

/// Place value of the digit at position `i` of a five-digit base-85 group.
pub open spec fn spec_table(i: int) -> u32 {
    if i == 0 {
        52200625
    } else if i == 1 {
        614125
    } else if i == 2 {
        7225
    } else if i == 3 {
        85
    } else {
        1
    }
}

fn table(i: usize) -> (r: u32)
    requires
        i <= 4,
    ensures
        r == spec_table(i as int),
{
    if i == 0 {
        52200625
    } else if i == 1 {
        614125
    } else if i == 2 {
        7225
    } else if i == 3 {
        85
    } else {
        1
    }
}

/// The 32-bit big-endian value of a group of at most four bytes, zero-padded.
pub open spec fn spec_group_value(s: Seq<u8>) -> nat {
    (if s.len() > 0 {
        s[0] as nat * 0x1000000
    } else {
        0
    }) + (if s.len() > 1 {
        s[1] as nat * 0x10000
    } else {
        0
    }) + (if s.len() > 2 {
        s[2] as nat * 0x100
    } else {
        0
    }) + (if s.len() > 3 {
        s[3] as nat
    } else {
        0
    })
}

/// Digit character at position `i` for a group of value `n`.
pub open spec fn spec_digit_char(n: nat, i: int) -> char {
    (((n / spec_table(i) as nat) % 85 + 33) as u8) as char
}

/// The `count` digit characters a group of value `n` encodes to.
pub open spec fn spec_group_chars(n: nat, count: int) -> Seq<char> {
    Seq::new(count as nat, |i: int| spec_digit_char(n, i))
}

/// Encoding of the input from byte position `i` on, in groups of four.
pub open spec fn spec_encode_from(s: Seq<u8>, i: int) -> Seq<char>
    decreases s.len() - i,
{
    if i < 0 || i >= s.len() {
        Seq::empty()
    } else if s.len() - i >= 4 {
        spec_group_chars(spec_group_value(s.subrange(i, i + 4)), 5) + spec_encode_from(s, i + 4)
    } else {
        spec_group_chars(spec_group_value(s.subrange(i, s.len() as int)), s.len() - i + 1)
    }
}

/// Ascii85 encoding: each four-byte group becomes five digits `33..=117`;
/// a final partial group of `k` bytes becomes `k + 1` digits.
pub open spec fn spec_encode(s: Seq<u8>) -> Seq<char> {
    spec_encode_from(s, 0)
}

/// Encode a byte string as ascii85 text.
pub fn encode(input: &[u8]) -> (result: String)
    ensures
        result@ == spec_encode(input@),
{
    let mut result = String::new();
    let len = input.len();
    let mut i: usize = 0;

    while i < len
        invariant
            len == input@.len(),
            i <= len,
            result@ + spec_encode_from(input@, i as int) == spec_encode(input@),
        decreases len - i,
    {
        let rest = len - i;
        let m: usize = if rest >= 4 {
            4
        } else {
            rest
        };
        let b0 = input[i] as u32;
        let b1 = if m > 1 {
            input[i + 1] as u32
        } else {
            0
        };
        let b2 = if m > 2 {
            input[i + 2] as u32
        } else {
            0
        };
        let b3 = if m > 3 {
            input[i + 3] as u32
        } else {
            0
        };
        let number: u32 = b0 * 0x1000000 + b1 * 0x10000 + b2 * 0x100 + b3;
        assert(number as nat == spec_group_value(input@.subrange(i as int, i + m as int)));

        let count = m + 1;
        let mut j: usize = 0;
        let ghost chars = spec_group_chars(number as nat, count as int);
        let ghost result0 = result@;
        while j < count
            invariant
                j <= count,
                count <= 5,
                chars == spec_group_chars(number as nat, count as int),
                result@ == result0 + chars.subrange(0, j as int),
            decreases count - j,
        {
            let digit = ((number / table(j)) % 85 + 33) as u8;
            string_push(&mut result, digit as char);
            proof {
                assert(digit as char == spec_digit_char(number as nat, j as int));
                assert(result@ =~= result0 + chars.subrange(0, j + 1));
            }
            j += 1;
        }
        proof {
            assert(result@ =~= result0 + chars);
            if rest >= 4 {
                assert(spec_encode_from(input@, i as int) == chars + spec_encode_from(
                    input@,
                    i + 4,
                ));
            } else {
                assert(spec_encode_from(input@, i as int) == chars);
                assert(spec_encode_from(input@, i + m as int) =~= Seq::<char>::empty());
            }
            assert(result@ + spec_encode_from(input@, i + m as int) =~= spec_encode(input@));
        }
        i += m;
    }
    result
}

/// Errors of [`decode`].
#[derive(Debug, Clone, Copy, PartialEq, Eq)]
pub enum Ascii85Error {
    /// A `z` shortcut appeared inside a group.
    MisalignedZ,
    /// A character outside the digit alphabet appeared.
    OutOfRange,
}

/// A value reduced to 32 bits, as the running group accumulator wraps.
pub open spec fn spec_wrap32(n: nat) -> nat {
    n % 0x100000000
}

/// The four big-endian bytes of a 32-bit value.
pub open spec fn spec_be_bytes(n: nat) -> Seq<u8> {
    seq![
        (n / 0x1000000 % 0x100) as u8,
        (n / 0x10000 % 0x100) as u8,
        (n / 0x100 % 0x100) as u8,
        (n % 0x100) as u8,
    ]
}

/// One digit folded into the decoder state `(counter, group, output)`:
/// the fifth digit of a group appends the group's four bytes.
pub open spec fn spec_digit_step(digit: u8, counter: int, group: nat, acc: Seq<u8>) -> (
    int,
    nat,
    Seq<u8>,
) {
    let g = spec_wrap32((group + (digit - 33) * spec_table(counter)) as nat);
    if counter == 4 {
        (0, 0, acc + spec_be_bytes(g))
    } else {
        (counter + 1, g, acc)
    }
}

/// Padding of a trailing partial group with the highest digit, as the decoder
/// does before dropping the surplus bytes; yields the padded output and how
/// many digits were fed.
pub open spec fn spec_pad(counter: int, group: nat, acc: Seq<u8>) -> (Seq<u8>, int)
    decreases
            (if counter == 0 {
                0int
            } else {
                6 - counter
            }),
    when 0 <= counter <= 4
{
    if counter == 0 {
        (acc, 0)
    } else {
        let (c2, g2, a2) = spec_digit_step(117, counter, group, acc);
        let (r, k) = spec_pad(c2, g2, a2);
        (r, k + 1)
    }
}

/// The decoder's final output: pad the trailing group, then drop as many
/// bytes from the end as digits were fed in.
pub open spec fn spec_finish(counter: int, group: nat, acc: Seq<u8>) -> Seq<u8> {
    let (padded, fed) = spec_pad(counter, group, acc);
    padded.take(padded.len() - fed)
}

/// The decoder run over the input bytes from position `i` on.
#[verifier::opaque]
pub open spec fn spec_decode_from(
    s: Seq<u8>,
    i: int,
    counter: int,
    group: nat,
    acc: Seq<u8>,
) -> Result<Seq<u8>, Ascii85Error>
    decreases s.len() - i,
{
    if i < 0 || i >= s.len() {
        Ok(spec_finish(counter, group, acc))
    } else if s[i] == 122 {
        if counter == 0 {
            Err(Ascii85Error::OutOfRange)
        } else {
            Err(Ascii85Error::MisalignedZ)
        }
    } else if s[i] < 33 || s[i] > 117 {
        Err(Ascii85Error::OutOfRange)
    } else {
        let (c2, g2, a2) = spec_digit_step(s[i], counter, group, acc);
        spec_decode_from(s, i + 1, c2, g2, a2)
    }
}

/// What [`decode`] yields on the UTF-8 bytes of its input.
pub open spec fn spec_decode(s: Seq<u8>) -> Result<Seq<u8>, Ascii85Error> {
    spec_decode_from(s, 0, 0, 0, Seq::empty())
}

proof fn lemma_decode_step(s: Seq<u8>, i: int, counter: int, group: nat, acc: Seq<u8>)
    requires
        0 <= i < s.len(),
        s[i] != 122,
        33 <= s[i] <= 117,
    ensures
        spec_decode_from(s, i, counter, group, acc) == spec_decode_from(
            s,
            i + 1,
            spec_digit_step(s[i], counter, group, acc).0,
            spec_digit_step(s[i], counter, group, acc).1,
            spec_digit_step(s[i], counter, group, acc).2,
        ),
{
    reveal(spec_decode_from);
}

proof fn lemma_decode_z(s: Seq<u8>, i: int, counter: int, group: nat, acc: Seq<u8>)
    requires
        0 <= i < s.len(),
        s[i] == 122,
    ensures
        counter == 0 ==> spec_decode_from(s, i, counter, group, acc) == Result::<
            Seq<u8>,
            Ascii85Error,
        >::Err(Ascii85Error::OutOfRange),
        counter != 0 ==> spec_decode_from(s, i, counter, group, acc) == Result::<
            Seq<u8>,
            Ascii85Error,
        >::Err(Ascii85Error::MisalignedZ),
{
    reveal(spec_decode_from);
}

proof fn lemma_decode_oor(s: Seq<u8>, i: int, counter: int, group: nat, acc: Seq<u8>)
    requires
        0 <= i < s.len(),
        s[i] < 33 || s[i] > 117,
        s[i] != 122,
    ensures
        spec_decode_from(s, i, counter, group, acc) == Result::<Seq<u8>, Ascii85Error>::Err(
            Ascii85Error::OutOfRange,
        ),
{
    reveal(spec_decode_from);
}

proof fn lemma_decode_end(s: Seq<u8>, i: int, counter: int, group: nat, acc: Seq<u8>)
    requires
        i >= s.len(),
    ensures
        spec_decode_from(s, i, counter, group, acc) == Result::<Seq<u8>, Ascii85Error>::Ok(
            spec_finish(counter, group, acc),
        ),
{
    reveal(spec_decode_from);
}

/// Fold one digit into the decoder state.
pub fn decode_digit(digit: u8, counter: &mut usize, chunk: &mut u32, result: &mut Vec<u8>)
    requires
        33 <= digit <= 117,
        *old(counter) <= 4,
    ensures
        *final(counter) == spec_digit_step(
            digit,
            *old(counter) as int,
            *old(chunk) as nat,
            old(result)@,
        ).0,
        *final(chunk) == spec_digit_step(
            digit,
            *old(counter) as int,
            *old(chunk) as nat,
            old(result)@,
        ).1,
        final(result)@ == spec_digit_step(
            digit,
            *old(counter) as int,
            *old(chunk) as nat,
            old(result)@,
        ).2,
        *final(counter) <= 4,
{
    let byte = digit - 33;
    let t = table(*counter);
    proof {
        assert(t <= 52200625);
        assert((byte as u64) * (t as u64) <= 84 * 52200625) by (nonlinear_arith)
            requires
                byte <= 84,
                t <= 52200625,
        ;
    }
    let v: u64 = *chunk as u64 + (byte as u64) * (t as u64);
    let wrapped: u64 = v % 0x100000000;
    *chunk = wrapped as u32;

    if *counter == 4 {
        let c = *chunk;
        result.push((c / 0x1000000 % 0x100) as u8);
        result.push((c / 0x10000 % 0x100) as u8);
        result.push((c / 0x100 % 0x100) as u8);
        result.push((c % 0x100) as u8);
        *chunk = 0;
        *counter = 0;
    } else {
        *counter += 1;
    }
}

/// Decode ascii85 text back to bytes. The digits run from `!` to `u`; a `z`
/// anywhere is rejected, inside a group as misaligned, otherwise as out of
/// range; a trailing partial group is completed with the highest digit and
/// the surplus bytes are dropped.
#[verifier::rlimit(100)]
#[verifier::spinoff_prover]
pub fn decode(input: &str) -> (r: Result<Vec<u8>, Ascii85Error>)
    ensures
        r is Ok <==> spec_decode(input.spec_bytes()) is Ok,
        r matches Ok(v) ==> v@ == spec_decode(input.spec_bytes())->Ok_0,
        r matches Err(e) ==> e == spec_decode(input.spec_bytes())->Err_0,
{
    let bytes = input.as_bytes_vec();
    let ghost s = input.spec_bytes();
    let mut result: Vec<u8> = Vec::new();
    let mut counter: usize = 0;
    let mut chunk: u32 = 0;
    let mut i: usize = 0;

    proof {
        reveal(spec_decode_from);
        assert(spec_decode_from(s, 0, 0, 0, Seq::empty()) == spec_decode(s));
    }
    while i < bytes.len()
        invariant
            s == input.spec_bytes(),
            bytes@ == s,
            i <= s.len(),
            counter <= 4,
            spec_decode_from(s, i as int, counter as int, chunk as nat, result@) == spec_decode(s),
        decreases s.len() - i,
    {
        let digit = bytes[i];
        if digit == 122 {
            proof {
                lemma_decode_z(s, i as int, counter as int, chunk as nat, result@);
            }
            if counter == 0 {
                return Err(Ascii85Error::OutOfRange);
            } else {
                return Err(Ascii85Error::MisalignedZ);
            }
        }
        if digit < 33 || digit > 117 {
            proof {
                lemma_decode_oor(s, i as int, counter as int, chunk as nat, result@);
            }
            return Err(Ascii85Error::OutOfRange);
        }
        let ghost cb = counter as int;
        let ghost gb = chunk as nat;
        let ghost ab = result@;
        decode_digit(digit, &mut counter, &mut chunk, &mut result);
        proof {
            lemma_decode_step(s, i as int, cb, gb, ab);
        }
        i += 1;
    }

    proof {
        lemma_decode_end(s, i as int, counter as int, chunk as nat, result@);
    }
    let ghost c0 = counter as int;
    let ghost g0 = chunk as nat;
    let ghost a0 = result@;
    let mut to_remove: usize = 0;

    while counter != 0
        invariant
            counter <= 4,
            0 <= c0 <= 4,
            spec_pad(counter as int, chunk as nat, result@).0 == spec_pad(c0, g0, a0).0,
            spec_pad(counter as int, chunk as nat, result@).1 + to_remove == spec_pad(
                c0,
                g0,
                a0,
            ).1,
            counter != 0 ==> counter as int == c0 + to_remove,
            counter == 0 ==> to_remove == 0 || result@.len() >= 4,
            c0 == 0 ==> counter == 0,
            to_remove <= 4,
        decreases
                (if counter == 0 {
                    0int
                } else {
                    6 - counter
                }),
    {
        decode_digit(117, &mut counter, &mut chunk, &mut result);
        to_remove += 1;
    }

    proof {
        assert(spec_pad(0, chunk as nat, result@).0 == result@);
        assert(spec_pad(0, chunk as nat, result@).1 == 0);
        assert(result@.len() >= to_remove);
    }
    let keep = result.len() - to_remove;
    result.truncate(keep);
    proof {
        assert(result@ == spec_finish(c0, g0, a0));
    }
    Ok(result)
}

} // verus!

