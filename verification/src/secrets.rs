//! Fixed-size secret material: lowercase hexadecimal encoding and decoding,
//! constant-time comparison, bearer-credential extraction and the
//! conformance fixture's one-time initialization proof.

use crate::text::{chars_of, has_prefix, is_ascii_digit, string_from_chars, strip_prefix_chars};
use vstd::prelude::*;

verus! {

/// Number of bytes in every secret the API exchanges.
pub const SECRET_BYTES: usize = 32;

/// Lowercase hexadecimal digit for `0 <= v < 16`.
pub open spec fn hex_digit(v: int) -> char {
    if v < 10 {
        (48 + v) as char
    } else {
        (87 + v) as char
    }
}

/// The lowercase hexadecimal rendering of `bytes`, two digits per byte,
/// most significant nibble first.
pub open spec fn hex_of(bytes: Seq<u8>) -> Seq<char> {
    Seq::new(
        2 * bytes.len(),
        |i: int|
            if i % 2 == 0 {
                hex_digit((bytes[i / 2] / 16) as int)
            } else {
                hex_digit((bytes[i / 2] % 16) as int)
            },
    )
}

pub open spec fn is_lower_hex(c: char) -> bool {
    is_ascii_digit(c) || ('a' <= c && c <= 'f')
}

/// Numeric value of a lowercase hexadecimal digit.
pub open spec fn hex_value(c: char) -> int {
    if is_ascii_digit(c) {
        (c as int) - 48
    } else {
        (c as int) - 87
    }
}

/// Exactly 64 lowercase hexadecimal digits.
pub open spec fn is_secret_hex(s: Seq<char>) -> bool {
    s.len() == 2 * SECRET_BYTES && forall|i: int| 0 <= i < s.len() ==> is_lower_hex(#[trigger] s[i])
}

/// The bytes that an even-length hexadecimal string denotes.
pub open spec fn bytes_of_hex(s: Seq<char>) -> Seq<u8> {
    Seq::new(
        s.len() / 2,
        |i: int| (16 * hex_value(s[2 * i]) + hex_value(s[2 * i + 1])) as u8,
    )
}

fn hex_digit_char(v: u8) -> (c: char)
    requires
        v < 16,
    ensures
        c == hex_digit(v as int),
{
    if v < 10 {
        (v + 48) as char
    } else {
        (v + 87) as char
    }
}

/// Renders a 32-byte secret as 64 lowercase hexadecimal digits.
pub fn encode_secret(secret: &[u8; 32]) -> (encoded: String)
    ensures
        encoded@ == hex_of(secret@),
{
    let mut out: Vec<char> = Vec::new();
    let mut i: usize = 0;
    while i < 32
        invariant
            i <= 32,
            secret@.len() == 32,
            out@.len() == 2 * i,
            forall|j: int| 0 <= j < 2 * i ==> #[trigger] out@[j] == hex_of(secret@)[j],
        decreases 32 - i,
    {
        let byte = secret[i];
        out.push(hex_digit_char(byte / 16));
        out.push(hex_digit_char(byte % 16));
        i = i + 1;
    }
    assert(out@ =~= hex_of(secret@));
    string_from_chars(&out)
}

fn hex_char_value(c: char) -> (r: Option<u8>)
    ensures
        match r {
            Some(v) => is_lower_hex(c) && v == hex_value(c) && v < 16,
            None => !is_lower_hex(c),
        },
{
    if '0' <= c && c <= '9' {
        Some(((c as u32) - 48) as u8)
    } else if 'a' <= c && c <= 'f' {
        Some(((c as u32) - 87) as u8)
    } else {
        None
    }
}

/// Decodes exactly 64 lowercase hexadecimal digits into 32 bytes; anything
/// else (another length, upper case, a non-digit) is refused.
pub fn decode_secret(encoded: &str) -> (decoded: Option<[u8; 32]>)
    ensures
        match decoded {
            Some(bytes) => is_secret_hex(encoded@) && bytes@ == bytes_of_hex(encoded@),
            None => !is_secret_hex(encoded@),
        },
{
    let cs = chars_of(encoded);
    decode_secret_chars(&cs)
}

/// `decode_secret` over a character sequence.
pub fn decode_secret_chars(cs: &[char]) -> (decoded: Option<[u8; 32]>)
    ensures
        match decoded {
            Some(bytes) => is_secret_hex(cs@) && bytes@ == bytes_of_hex(cs@),
            None => !is_secret_hex(cs@),
        },
{
    if cs.len() != 64 {
        return None;
    }
    let mut bytes: [u8; 32] = [0u8; 32];
    let mut i: usize = 0;
    while i < 32
        invariant
            cs@.len() == 64,
            i <= 32,
            bytes@.len() == 32,
            forall|j: int| 0 <= j < 2 * i ==> is_lower_hex(#[trigger] cs@[j]),
            forall|j: int| 0 <= j < i ==> #[trigger] bytes@[j] == bytes_of_hex(cs@)[j],
        decreases 32 - i,
    {
        let hi = hex_char_value(cs[2 * i]);
        let lo = hex_char_value(cs[2 * i + 1]);
        match (hi, lo) {
            (Some(h), Some(l)) => {
                bytes[i] = h * 16 + l;
            },
            _ => {
                assert(!is_lower_hex(cs@[2 * i as int]) || !is_lower_hex(cs@[2 * i + 1]));
                return None;
            },
        }
        i = i + 1;
    }
    assert(bytes@ =~= bytes_of_hex(cs@));
    Some(bytes)
}

/// Compares two byte strings without an early exit on the first differing
/// byte; the result is plain equality.
pub fn constant_time_eq(left: &[u8], right: &[u8]) -> (equal: bool)
    ensures
        equal == (left@ == right@),
{
    if left.len() != right.len() {
        return false;
    }
    let mut difference: u8 = 0;
    let mut i: usize = 0;
    while i < left.len()
        invariant
            left@.len() == right@.len(),
            i <= left@.len(),
            (difference == 0) == (forall|j: int| 0 <= j < i ==> left@[j] == right@[j]),
        decreases left@.len() - i,
    {
        let a = left[i];
        let b = right[i];
        let next = difference | (a ^ b);
        assert(next == 0 <==> (difference == 0 && a == b)) by (bit_vector)
            requires
                next == difference | (a ^ b),
        ;
        difference = next;
        i = i + 1;
    }
    if difference == 0 {
        assert(left@ =~= right@);
    }
    difference == 0
}

/// Hexadecimal encoding of a secret is undone by decoding: a presented
/// encoding of secret bytes decodes back to exactly those bytes.
pub proof fn lemma_decode_encode_roundtrip(bytes: Seq<u8>)
    requires
        bytes.len() == SECRET_BYTES,
    ensures
        is_secret_hex(hex_of(bytes)),
        bytes_of_hex(hex_of(bytes)) == bytes,
{
    let h = hex_of(bytes);
    assert forall|i: int| 0 <= i < h.len() implies is_lower_hex(#[trigger] h[i]) by {
        let b = bytes[i / 2];
        assert(0 <= b / 16 < 16 && 0 <= b % 16 < 16);
    }
    assert forall|i: int| 0 <= i < bytes.len() implies #[trigger] bytes_of_hex(h)[i] == bytes[i] by {
        let b = bytes[i];
        assert((2 * i) / 2 == i && (2 * i + 1) / 2 == i && (2 * i) % 2 == 0 && (2 * i + 1) % 2
            == 1);
        assert(hex_value(hex_digit((b / 16) as int)) == b / 16);
        assert(hex_value(hex_digit((b % 16) as int)) == b % 16);
        assert(16 * (b / 16) + b % 16 == b);
    }
    assert(bytes_of_hex(h) =~= bytes);
}

/// Decoding is undone by encoding: every accepted encoding is the canonical
/// rendering of the bytes it denotes.
pub proof fn lemma_encode_decode_roundtrip(s: Seq<char>)
    requires
        is_secret_hex(s),
    ensures
        hex_of(bytes_of_hex(s)) == s,
{
    let b = bytes_of_hex(s);
    assert forall|i: int| 0 <= i < s.len() implies #[trigger] hex_of(b)[i] == s[i] by {
        let k = i / 2;
        assert(0 <= k < 32);
        let hi = hex_value(s[2 * k]);
        let lo = hex_value(s[2 * k + 1]);
        assert(is_lower_hex(s[2 * k]) && is_lower_hex(s[2 * k + 1]));
        assert(0 <= hi < 16 && 0 <= lo < 16);
        assert(b[k] == 16 * hi + lo);
        assert((16 * hi + lo) / 16 == hi && (16 * hi + lo) % 16 == lo) by (nonlinear_arith)
            requires
                0 <= hi < 16,
                0 <= lo < 16,
        ;
        if i % 2 == 0 {
            assert(i == 2 * k);
        } else {
            assert(i == 2 * k + 1);
        }
    }
    assert(hex_of(b) =~= s);
}

/// The authorization scheme prefix of a bearer credential.
pub const BEARER_PREFIX: &'static str = "Bearer ";

/// The credential of an `Authorization` value: the text after the exact,
/// case-sensitive `Bearer ` prefix.
pub open spec fn bearer_payload(value: Seq<char>) -> Option<Seq<char>> {
    let prefix = seq!['B', 'e', 'a', 'r', 'e', 'r', ' '];
    if has_prefix(value, prefix) {
        Some(value.subrange(7, value.len() as int))
    } else {
        None
    }
}

pub fn strip_bearer(value: &[char]) -> (r: Option<Vec<char>>)
    ensures
        match r {
            Some(rest) => bearer_payload(value@) == Some(rest@),
            None => bearer_payload(value@).is_none(),
        },
{
    let prefix: Vec<char> = vec!['B', 'e', 'a', 'r', 'e', 'r', ' '];
    assert(prefix@ =~= seq!['B', 'e', 'a', 'r', 'e', 'r', ' ']);
    strip_prefix_chars(value, &prefix)
}

/// The conformance fixture's one-time initialization proof: 32 bytes drawn
/// from the operating system's generator.
pub struct InitializationProof {
    bytes: [u8; 32],
}

impl View for InitializationProof {
    type V = Seq<u8>;

    closed spec fn view(&self) -> Seq<u8> {
        self.bytes@
    }
}

/// `getrandom::fill` on a 32-byte buffer. What the generator produces is
/// not stated; `None` stands for the generator's error.
#[verifier::external_body]
fn os_random_32() -> (r: Option<[u8; 32]>) {
    let mut bytes = [0u8; 32];
    match getrandom::fill(&mut bytes) {
        Ok(()) => Some(bytes),
        Err(_) => None,
    }
}

impl InitializationProof {
    /// A fresh proof from the operating system's generator, or `None` when
    /// the generator is unavailable.
    pub fn fresh() -> (r: Option<InitializationProof>)
        ensures
            r matches Some(p) ==> p@.len() == SECRET_BYTES,
    {
        match os_random_32() {
            Some(bytes) => Some(InitializationProof { bytes }),
            None => None,
        }
    }

    /// A proof holding the given bytes.
    pub fn from_bytes(bytes: [u8; 32]) -> (p: InitializationProof)
        ensures
            p@ == bytes@,
    {
        InitializationProof { bytes }
    }

    /// The proof's bytes, for the fixture that hands them out exactly once.
    pub fn expose_for_fixture(&self) -> (bytes: &[u8; 32])
        ensures
            bytes@ == self@,
    {
        &self.bytes
    }

    /// Overwrites the proof with zeros once it is no longer needed.
    pub fn wipe(&mut self)
        ensures
            final(self)@ == Seq::new(32, |i: int| 0u8),
    {
        self.bytes = [0u8; 32];
        assert(self.bytes@ =~= Seq::new(32, |i: int| 0u8));
    }
}

} // verus!
