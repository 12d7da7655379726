//! The digest deriver and the field decoder.
//!
//! Bit positions count from the most significant bit of the first byte. The
//! field layout implemented here is:
//!
//! | field          | bits        | transform        |
//! |----------------|-------------|------------------|
//! | lucky number   | [0, 8)      | identity         |
//! | lucky hex      | [8, 16)     | identity         |
//! | lucky bits     | [16, 32)    | identity         |
//! | lucky day      | [32, 41)    | `v % 365 + 1`    |
//! | lucky hour     | [41, 46)    | `v % 24`         |
//! | lucky minute   | [46, 52)    | `v % 60`         |
//! | luck flags     | [52, 116)   | identity, bitset |
//! | luck scores    | [116, 244)  | 16 bytes         |
//! | entropy check  | [244, 256)  | identity         |
//!
//! The power-of-two, ASCII and logic-gate readings view bits [52, 65), which
//! lie inside the flag field; they shift no other field.
use crate::text::{
    decimal, lemma_decimal_digits, lemma_decimal_injective, lower_hex_char, lower_hex_digit, push_char,
    push_decimal, push_str,
};
use sha2::Digest;
use vstd::arithmetic::power2::{lemma2_to64, pow2};
use vstd::prelude::*;

verus! {

/// The value (0 or 1) of bit `pos`, counted from the most significant bit of
/// the first byte; a position past the end reads as 0.
pub open spec fn bit_at(bytes: Seq<u8>, pos: nat) -> nat {
    if pos / 8 < bytes.len() {
        ((bytes[(pos / 8) as int] >> ((7 - pos % 8) as u8)) & 1u8) as nat
    } else {
        0
    }
}

/// The unsigned integer formed by bits `start .. start + width`, most
/// significant first.
pub open spec fn bits_value(bytes: Seq<u8>, start: nat, width: nat) -> nat
    decreases width,
{
    if width == 0 {
        0
    } else {
        2 * bits_value(bytes, start, (width - 1) as nat) + bit_at(bytes, (start + width - 1) as nat)
    }
}

proof fn lemma_bit_at_le_1(bytes: Seq<u8>, pos: nat)
    ensures
        bit_at(bytes, pos) <= 1,
{
    if pos / 8 < bytes.len() {
        let b = bytes[(pos / 8) as int];
        let k = (7 - pos % 8) as u8;
        assert((b >> k) & 1u8 <= 1u8) by (bit_vector);
    }
}

/// A field of `width` bits is below `2^width`.
pub proof fn lemma_bits_value_bound(bytes: Seq<u8>, start: nat, width: nat)
    ensures
        bits_value(bytes, start, width) < pow2(width),
    decreases width,
{
    if width == 0 {
        lemma2_to64();
    } else {
        lemma_bits_value_bound(bytes, start, (width - 1) as nat);
        lemma_bit_at_le_1(bytes, (start + width - 1) as nat);
        vstd::arithmetic::power2::lemma_pow2_unfold(width);
    }
}

/// The fixed salt that ends every hashed seed text.
pub const SALT: &'static str = "sha-omikuji-2026";

/// The text that is hashed for `year` and `user`: the year in decimal, `'-'`,
/// the user seed, `'-'`, and the salt.
pub open spec fn seed_text(year: nat, user: Seq<char>) -> Seq<char> {
    decimal(year) + seq!['-'] + user + seq!['-'] + SALT@
}

/// Distinct (year, seed) pairs give distinct seed texts, so their digests
/// differ unless SHA-256 collides.
pub proof fn lemma_seed_text_injective(y1: nat, u1: Seq<char>, y2: nat, u2: Seq<char>)
    requires
        seed_text(y1, u1) == seed_text(y2, u2),
    ensures
        y1 == y2,
        u1 == u2,
{
    let t = seed_text(y1, u1);
    let d1 = decimal(y1);
    let d2 = decimal(y2);
    lemma_decimal_digits(y1);
    lemma_decimal_digits(y2);
    assert(t[d1.len() as int] == '-');
    assert(seed_text(y2, u2)[d2.len() as int] == '-');
    if d1.len() < d2.len() {
        assert(seed_text(y2, u2)[d1.len() as int] == d2[d1.len() as int]);
    }
    if d2.len() < d1.len() {
        assert(t[d2.len() as int] == d1[d2.len() as int]);
    }
    assert(d1.len() == d2.len());
    assert(d1 =~= t.subrange(0, d1.len() as int));
    assert(d2 =~= seed_text(y2, u2).subrange(0, d2.len() as int));
    lemma_decimal_injective(y1, y2);
    assert(t.len() == d1.len() + 1 + u1.len() + 1 + SALT@.len());
    assert(seed_text(y2, u2).len() == d2.len() + 1 + u2.len() + 1 + SALT@.len());
    assert(u1.len() == u2.len());
    let start = d1.len() + 1;
    assert(u1 =~= t.subrange(start as int, start + u1.len() as int));
    assert(u2 =~= seed_text(y2, u2).subrange(start as int, start + u2.len() as int));
}

/// The SHA-256 digest of the UTF-8 encoding of `text`.
pub uninterp spec fn sha256_of(text: Seq<char>) -> Seq<u8>;

/// Relies on `sha2::Sha256::digest`: the SHA-256 digest of the UTF-8 bytes
/// of `text`, as 32 bytes.
#[verifier::external_body]
fn sha256(text: &str) -> (r: [u8; 32])
    ensures
        r@ == sha256_of(text@),
{
    sha2::Sha256::digest(text.as_bytes()).into()
}

/// The lucky day: bits [32, 41) reduced modulo 365, plus one.
pub open spec fn lucky_day_of(d: Seq<u8>) -> nat {
    bits_value(d, 32, 9) % 365 + 1
}

/// The lucky hour: bits [41, 46) reduced modulo 24.
pub open spec fn lucky_hour_of(d: Seq<u8>) -> nat {
    bits_value(d, 41, 5) % 24
}

/// The lucky minute: bits [46, 52) reduced modulo 60.
pub open spec fn lucky_minute_of(d: Seq<u8>) -> nat {
    bits_value(d, 46, 6) % 60
}

/// The luck score byte of category `i`: bits [116 + 8i, 124 + 8i).
pub open spec fn score_byte_of(d: Seq<u8>, i: nat) -> nat {
    bits_value(d, 116 + 8 * i, 8)
}

/// The name of logic gate `v`.
pub open spec fn gate_name(v: nat) -> Seq<char> {
    if v == 0 {
        "AND"@
    } else if v == 1 {
        "OR"@
    } else if v == 2 {
        "XOR"@
    } else if v == 3 {
        "NOT"@
    } else if v == 4 {
        "NAND"@
    } else if v == 5 {
        "NOR"@
    } else if v == 6 {
        "XNOR"@
    } else {
        "BUFFER"@
    }
}

/// Two lowercase hexadecimal characters for each byte, most significant
/// nibble first.
pub open spec fn hex_text(d: Seq<u8>) -> Seq<char> {
    Seq::new(
        2 * d.len(),
        |i: int|
            if i % 2 == 0 {
                lower_hex_char((d[i / 2] / 16) as nat)
            } else {
                lower_hex_char((d[i / 2] % 16) as nat)
            },
    )
}

/// Whether `c` is a lowercase hexadecimal digit.
pub open spec fn is_lower_hex_digit(c: char) -> bool {
    ('0' <= c <= '9') || ('a' <= c <= 'f')
}

/// A 32-byte SHA-256 digest, read as a buffer of 256 addressable bits.
pub struct HashBits {
    bytes: [u8; 32],
}

impl View for HashBits {
    type V = Seq<u8>;

    closed spec fn view(&self) -> Seq<u8> {
        self.bytes@
    }
}

impl HashBits {
    /// Wraps 32 digest bytes.
    pub fn from_bytes(bytes: [u8; 32]) -> (r: HashBits)
        ensures
            r@ == bytes@,
    {
        HashBits { bytes }
    }

    /// Derives the digest of `year` and `user`: the SHA-256 digest of their
    /// seed text.
    pub fn from_seed(year: u32, user: &str) -> (r: HashBits)
        ensures
            r@ == sha256_of(seed_text(year as nat, user@)),
    {
        let mut seed = String::new();
        push_decimal(&mut seed, year);
        push_char(&mut seed, '-');
        push_str(&mut seed, user);
        push_char(&mut seed, '-');
        push_str(&mut seed, SALT);
        assert(seed@ =~= seed_text(year as nat, user@));
        HashBits { bytes: sha256(seed.as_str()) }
    }

    /// The 32 digest bytes.
    pub fn raw_bytes(&self) -> (r: &[u8; 32])
        ensures
            r@ == self@,
    {
        &self.bytes
    }

    /// The digest as 64 lowercase hexadecimal characters.
    pub fn hex_string(&self) -> (r: String)
        ensures
            r@ == hex_text(self@),
    {
        let mut out = String::new();
        let mut i: usize = 0;
        while i < 32
            invariant
                i <= 32,
                out@ =~= hex_text(self@.subrange(0, i as int)),
            decreases 32 - i,
        {
            let b = self.bytes[i];
            push_char(&mut out, lower_hex_digit(b / 16));
            push_char(&mut out, lower_hex_digit(b % 16));
            i = i + 1;
            assert(out@ =~= hex_text(self@.subrange(0, i as int)));
        }
        assert(self@.subrange(0, 32) =~= self@);
        out
    }

    /// Two derivations from the same year and seed hold the same digest, so
    /// every field read from them agrees.
    pub proof fn lemma_derivation_deterministic(year: u32, user: Seq<char>, a: HashBits, b: HashBits)
        requires
            a@ == sha256_of(seed_text(year as nat, user)),
            b@ == sha256_of(seed_text(year as nat, user)),
        ensures
            a@ == b@,
            a == b,
            forall|start: nat, width: nat| bits_value(a@, start, width) == bits_value(b@, start, width),
            hex_text(a@) == hex_text(b@),
    {
        assert(a.bytes =~= b.bytes);
    }

    /// The fingerprint is exactly 64 lowercase hexadecimal digits.
    pub proof fn lemma_fingerprint_shape(h: HashBits)
        ensures
            hex_text(h@).len() == 64,
            forall|i: int| 0 <= i < 64 ==> is_lower_hex_digit(#[trigger] hex_text(h@)[i]),
    {
        assert forall|i: int| 0 <= i < 64 implies is_lower_hex_digit(#[trigger] hex_text(h@)[i]) by {
            let b = h@[i / 2];
            assert(b / 16 < 16 && b % 16 < 16);
        }
    }

    /// Reads `num_bits` bits starting at `start_bit`, most significant first;
    /// bits past the end of the digest read as 0.
    fn get_bits(&self, start_bit: usize, num_bits: usize) -> (r: u64)
        requires
            num_bits <= 64,
            start_bit + num_bits <= usize::MAX,
        ensures
            r == bits_value(self@, start_bit as nat, num_bits as nat),
    {
        let mut result: u64 = 0;
        let mut i: usize = 0;
        while i < num_bits
            invariant
                i <= num_bits <= 64,
                start_bit + num_bits <= usize::MAX,
                result == bits_value(self@, start_bit as nat, i as nat),
            decreases num_bits - i,
        {
            let bit_index = start_bit + i;
            let byte_index = bit_index / 8;
            let bit_offset = 7 - (bit_index % 8);
            proof {
                lemma_bits_value_bound(self@, start_bit as nat, i as nat);
                lemma_bit_at_le_1(self@, bit_index as nat);
                lemma2_to64();
                if i < 63 {
                    vstd::arithmetic::power2::lemma_pow2_strictly_increases(i as nat, 63);
                }
                vstd::arithmetic::power2::lemma2_to64_rest();
            }
            let bit: u64 = if byte_index < 32 {
                ((self.bytes[byte_index] >> (bit_offset as u8)) & 1) as u64
            } else {
                0
            };
            assert(bit == bit_at(self@, bit_index as nat));
            let prev = result;
            assert(prev < 0x8000_0000_0000_0000u64);
            assert(bit <= 1);
            assert((prev << 1u64) | bit == 2 * prev + bit) by (bit_vector)
                requires
                    prev < 0x8000_0000_0000_0000u64,
                    bit <= 1u64,
            ;
            result = (result << 1) | bit;
            i = i + 1;
        }
        result
    }

    /// Bits [0, 8).
    pub fn lucky_number(&self) -> (r: u8)
        ensures
            r == bits_value(self@, 0, 8),
    {
        proof {
            lemma_bits_value_bound(self@, 0, 8);
            lemma2_to64();
        }
        self.get_bits(0, 8) as u8
    }

    /// Bits [8, 16).
    pub fn lucky_hex(&self) -> (r: u8)
        ensures
            r == bits_value(self@, 8, 8),
    {
        proof {
            lemma_bits_value_bound(self@, 8, 8);
            lemma2_to64();
        }
        self.get_bits(8, 8) as u8
    }

    /// Bits [16, 32).
    pub fn lucky_bits(&self) -> (r: u16)
        ensures
            r == bits_value(self@, 16, 16),
    {
        proof {
            lemma_bits_value_bound(self@, 16, 16);
            lemma2_to64();
        }
        self.get_bits(16, 16) as u16
    }

    /// The lucky day of the year, in 1 ..= 365.
    pub fn lucky_day(&self) -> (r: u16)
        ensures
            r == lucky_day_of(self@),
            1 <= r <= 365,
    {
        proof {
            lemma_bits_value_bound(self@, 32, 9);
            lemma2_to64();
        }
        let value = self.get_bits(32, 9) as u16;
        (value % 365) + 1
    }

    /// The lucky hour, in 0 ..= 23.
    pub fn lucky_hour(&self) -> (r: u8)
        ensures
            r == lucky_hour_of(self@),
            r <= 23,
    {
        proof {
            lemma_bits_value_bound(self@, 41, 5);
            lemma2_to64();
        }
        let value = self.get_bits(41, 5) as u8;
        value % 24
    }

    /// The lucky minute, in 0 ..= 59.
    pub fn lucky_minute(&self) -> (r: u8)
        ensures
            r == lucky_minute_of(self@),
            r <= 59,
    {
        proof {
            lemma_bits_value_bound(self@, 46, 6);
            lemma2_to64();
        }
        let value = self.get_bits(46, 6) as u8;
        value % 60
    }

    /// Two to the power of bits [52, 55): one of 1, 2, 4, ..., 128.
    pub fn lucky_power_of_2(&self) -> (r: u8)
        ensures
            r == pow2(bits_value(self@, 52, 3)),
    {
        proof {
            lemma_bits_value_bound(self@, 52, 3);
            lemma2_to64();
        }
        let n = self.get_bits(52, 3) as u8;
        proof {
            vstd::arithmetic::power2::lemma_pow2_strictly_increases(n as nat, 8);
            vstd::bits::lemma_u8_shl_is_mul(1, n);
        }
        1u8 << n
    }

    /// A printable ASCII character, code 32 ..= 126, from bits [55, 62).
    pub fn lucky_ascii(&self) -> (r: char)
        ensures
            r as nat == 32 + bits_value(self@, 55, 7) % 95,
            ' ' <= r <= '~',
    {
        proof {
            lemma_bits_value_bound(self@, 55, 7);
            lemma2_to64();
        }
        let value = self.get_bits(55, 7) as u8;
        let ascii_code = 32 + (value % 95);
        ascii_code as char
    }

    /// The logic gate named by bits [62, 65).
    pub fn lucky_logic_gate(&self) -> (r: &'static str)
        ensures
            r@ == gate_name(bits_value(self@, 62, 3)),
    {
        proof {
            lemma_bits_value_bound(self@, 62, 3);
            lemma2_to64();
        }
        let value = self.get_bits(62, 3) as u8;
        match value {
            0 => "AND",
            1 => "OR",
            2 => "XOR",
            3 => "NOT",
            4 => "NAND",
            5 => "NOR",
            6 => "XNOR",
            _ => "BUFFER",
        }
    }

    /// The 64-bit flag set, bits [52, 116); bit `i` (from the least
    /// significant end) gates luck category `i`.
    pub fn luck_flags(&self) -> (r: u64)
        ensures
            r == bits_value(self@, 52, 64),
    {
        self.get_bits(52, 64)
    }

    /// The sixteen luck score bytes, one per category, from bits [116, 244).
    pub fn luck_scores(&self) -> (r: [u8; 16])
        ensures
            forall|i: int| 0 <= i < 16 ==> r[i] == score_byte_of(self@, i as nat),
    {
        let mut scores = [0u8; 16];
        let mut i: usize = 0;
        while i < 16
            invariant
                i <= 16,
                forall|j: int| 0 <= j < i ==> scores[j] == score_byte_of(self@, j as nat),
            decreases 16 - i,
        {
            proof {
                lemma_bits_value_bound(self@, (116 + i * 8) as nat, 8);
                lemma2_to64();
            }
            let v = self.get_bits(116 + i * 8, 8) as u8;
            scores[i] = v;
            i = i + 1;
        }
        scores
    }

    /// Bits [244, 256), in 0 ..= 4095.
    pub fn entropy_check(&self) -> (r: u16)
        ensures
            r == bits_value(self@, 244, 12),
            r <= 4095,
    {
        proof {
            lemma_bits_value_bound(self@, 244, 12);
            lemma2_to64();
        }
        self.get_bits(244, 12) as u16
    }
}

} // verus!
