//! Random identifiers in the text form of version 4 UUIDs.
use vstd::prelude::*;
use crate::decimal::digit_char;

verus! {

/// The lowercase hexadecimal digit of a number below 16.
pub open spec fn hex_char(n: u8) -> char {
    if n < 10 {
        digit_char(n as nat)
    } else if n == 10 {
        'a'
    } else if n == 11 {
        'b'
    } else if n == 12 {
        'c'
    } else if n == 13 {
        'd'
    } else if n == 14 {
        'e'
    } else {
        'f'
    }
}

/// The two lowercase hexadecimal digits of a byte, high nibble first.
pub open spec fn hex_byte(b: u8) -> Seq<char> {
    seq![hex_char(b >> 4u8), hex_char(b & 0x0fu8)]
}

/// The hexadecimal digits of the bytes `from..to` of `b`, in order.
pub open spec fn hex_run(b: Seq<u8>, from: int, to: int) -> Seq<char>
    decreases to - from,
{
    if from >= to {
        Seq::empty()
    } else {
        hex_byte(b[from]) + hex_run(b, from + 1, to)
    }
}

/// Sixteen random bytes with the version nibble set to 4 and the variant
/// bits set to `10`.
pub open spec fn v4_bytes(b: Seq<u8>) -> Seq<u8> {
    b.update(6, (b[6] & 0x0fu8) | 0x40u8).update(8, (b[8] & 0x3fu8) | 0x80u8)
}

/// The hyphenated lowercase text of the version 4 UUID made of the random bytes `b`.
pub open spec fn uuid_text_of(b: Seq<u8>) -> Seq<char> {
    let v = v4_bytes(b);
    hex_run(v, 0, 4) + seq!['-'] + hex_run(v, 4, 6) + seq!['-'] + hex_run(v, 6, 8) + seq!['-']
        + hex_run(v, 8, 10) + seq!['-'] + hex_run(v, 10, 16)
}

/// A lowercase hexadecimal digit.
pub open spec fn is_lower_hex(c: char) -> bool {
    ('0' <= c && c <= '9') || ('a' <= c && c <= 'f')
}

/// The hyphenated lowercase text of a random (version 4) UUID:
/// `xxxxxxxx-xxxx-4xxx-Yxxx-xxxxxxxxxxxx` with `Y` one of `8`, `9`, `a`, `b`.
pub open spec fn is_v4_uuid_text(s: Seq<char>) -> bool {
    &&& s.len() == 36
    &&& forall|i: int|
        0 <= i < 36 ==> (if i == 8 || i == 13 || i == 18 || i == 23 {
            s[i] == '-'
        } else {
            is_lower_hex(#[trigger] s[i])
        })
    &&& s[14] == '4'
    &&& (s[19] == '8' || s[19] == '9' || s[19] == 'a' || s[19] == 'b')
}

/// Calls `getrandom::fill` on sixteen bytes: `Some` of them when the
/// operating system supplied them, `None` when it reported an error. Which
/// bytes come out is chance, so nothing is claimed of them.
#[verifier::external_body]
fn random_bytes() -> (r: Option<[u8; 16]>) {
    let mut bytes = [0u8; 16];
    match getrandom::fill(&mut bytes) {
        Ok(()) => Some(bytes),
        Err(_) => None,
    }
}

/// Calls `uuid::Builder::from_random_bytes` and returns the `Display` text
/// of the UUID it builds. Per the crate's source, the builder keeps the
/// bytes in order but for byte 6, whose high nibble becomes 4, and byte 8,
/// whose two high bits become `10`; `Display` writes each byte as two
/// lowercase hexadecimal digits, with a `-` after bytes 4, 6, 8 and 10.
#[verifier::external_body]
fn uuid_text(bytes: [u8; 16]) -> (s: String)
    ensures
        s@ == uuid_text_of(bytes@),
{
    uuid::Builder::from_random_bytes(bytes).into_uuid().to_string()
}

proof fn lemma_hex_char(n: u8)
    requires
        n < 16,
    ensures
        is_lower_hex(hex_char(n)),
{
}

proof fn lemma_hex_run(b: Seq<u8>, from: int, to: int)
    requires
        0 <= from <= to <= b.len(),
    ensures
        hex_run(b, from, to).len() == 2 * (to - from),
        forall|k: int| 0 <= k < hex_run(b, from, to).len() ==> is_lower_hex(#[trigger] hex_run(b, from, to)[k]),
    decreases to - from,
{
    if from < to {
        lemma_hex_run(b, from + 1, to);
        let x = b[from];
        assert(x >> 4u8 < 16u8) by (bit_vector);
        assert(x & 0x0fu8 < 16u8) by (bit_vector);
        lemma_hex_char(x >> 4u8);
        lemma_hex_char(x & 0x0fu8);
        let r = hex_run(b, from + 1, to);
        assert forall|k: int| 0 <= k < hex_run(b, from, to).len() implies is_lower_hex(#[trigger] hex_run(b, from, to)[k]) by {
            if k >= 2 {
                assert(hex_run(b, from, to)[k] == r[k - 2]);
            }
        }
    }
}

/// The text made of any sixteen bytes has the shape of a version 4 UUID.
pub proof fn lemma_uuid_text_shape(b: Seq<u8>)
    requires
        b.len() == 16,
    ensures
        is_v4_uuid_text(uuid_text_of(b)),
{
    let v = v4_bytes(b);
    let r0 = hex_run(v, 0, 4);
    let r1 = hex_run(v, 4, 6);
    let r2 = hex_run(v, 6, 8);
    let r3 = hex_run(v, 8, 10);
    let r4 = hex_run(v, 10, 16);
    lemma_hex_run(v, 0, 4);
    lemma_hex_run(v, 4, 6);
    lemma_hex_run(v, 6, 8);
    lemma_hex_run(v, 8, 10);
    lemma_hex_run(v, 10, 16);
    let s = uuid_text_of(b);
    let b6 = b[6];
    let b8 = b[8];
    assert(((b6 & 0x0fu8) | 0x40u8) >> 4u8 == 4u8) by (bit_vector);
    let h8 = ((b8 & 0x3fu8) | 0x80u8) >> 4u8;
    assert(h8 == 8u8 || h8 == 9u8 || h8 == 10u8 || h8 == 11u8) by (bit_vector)
        requires
            h8 == ((b8 & 0x3fu8) | 0x80u8) >> 4u8,
    ;
    assert(r2 =~= hex_byte(v[6]) + hex_run(v, 7, 8));
    assert(r3 =~= hex_byte(v[8]) + hex_run(v, 9, 10));
    assert(s[14] == r2[0]);
    assert(s[19] == r3[0]);
    assert forall|i: int|
        0 <= i < 36 implies (if i == 8 || i == 13 || i == 18 || i == 23 {
            s[i] == '-'
        } else {
            is_lower_hex(#[trigger] s[i])
        }) by {
        if i < 8 {
            assert(s[i] == r0[i]);
        } else if 8 < i < 13 {
            assert(s[i] == r1[i - 9]);
        } else if 13 < i < 18 {
            assert(s[i] == r2[i - 14]);
        } else if 18 < i < 23 {
            assert(s[i] == r3[i - 19]);
        } else if 23 < i {
            assert(s[i] == r4[i - 24]);
        }
    }
}

/// A fresh random identifier, or `None` when the operating system cannot
/// supply random bytes.
pub fn new_uuid_text() -> (r: Option<String>)
    ensures
        r matches Some(s) ==> is_v4_uuid_text(s@),
{
    match random_bytes() {
        Some(bytes) => {
            let s = uuid_text(bytes);
            proof {
                lemma_uuid_text_shape(bytes@);
            }
            Some(s)
        },
        None => None,
    }
}

/// The text of a UUID holds no `.`, so it never shifts a file's extension.
pub proof fn lemma_uuid_text_has_no_dot(s: Seq<char>)
    requires
        is_v4_uuid_text(s),
    ensures
        !s.contains('.'),
{
    if s.contains('.') {
        let i = choose|i: int| 0 <= i < s.len() && s[i] == '.';
        if !(i == 8 || i == 13 || i == 18 || i == 23) {
            assert(is_lower_hex(s[i]));
        }
    }
}

} // verus!
