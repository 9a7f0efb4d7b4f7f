//! Hexadecimal encoding and decoding of byte strings.
//!
//! Encoding emits lowercase digits; decoding accepts either case and rejects
//! odd lengths and non-hex characters.

use vstd::prelude::*;
use vstd::string::*;
use vstd::utf8::encode_utf8;

verus! {

/// The lowercase hex digit for a nibble `v < 16`.
pub open spec fn hex_digit(v: nat) -> char {
    if v < 10 {
        ((v + 48) as u32) as char
    } else {
        ((v + 87) as u32) as char
    }
}

/// Lowercase hex encoding: two digits per byte, high nibble first.
pub open spec fn hex_encode(b: Seq<u8>) -> Seq<char> {
    Seq::new(
        2 * b.len(),
        |i: int| if i % 2 == 0 { hex_digit((b[i / 2] / 16) as nat) } else { hex_digit((b[i / 2] % 16) as nat) },
    )
}

/// Why a hex string was refused.
#[derive(Debug, Clone, Copy, PartialEq, Eq, Structural)]
pub enum HexError {
    /// The string has an odd number of bytes.
    OddLength,
    /// The byte at `index` is not a hex digit; `c` is that byte as a char.
    InvalidHexCharacter { c: char, index: usize },
}

/// Whether byte `b` is a hex digit (either case).
pub open spec fn is_hex_byte(b: u8) -> bool {
    ||| (48 <= b && b <= 57)
    ||| (97 <= b && b <= 102)
    ||| (65 <= b && b <= 70)
}

/// The value of a hex digit byte.
pub open spec fn hex_byte_val(b: u8) -> nat {
    if b <= 57 {
        (b - 48) as nat
    } else if b >= 97 {
        (b - 87) as nat
    } else {
        (b - 55) as nat
    }
}

/// `i` is the first position of `b` that holds no hex digit.
pub open spec fn first_non_hex(b: Seq<u8>, i: int) -> bool {
    &&& 0 <= i < b.len()
    &&& !is_hex_byte(b[i])
    &&& forall|j: int| 0 <= j < i ==> is_hex_byte(#[trigger] b[j])
}

/// Hex decoding of a byte string: an odd length is refused first, then the
/// first non-hex byte; otherwise each pair of digits gives one byte, high
/// nibble first.
pub open spec fn hex_decode_bytes(b: Seq<u8>) -> Result<Seq<u8>, HexError> {
    if b.len() % 2 != 0 {
        Err(HexError::OddLength)
    } else if exists|i: int| first_non_hex(b, i) {
        let i = choose|i: int| first_non_hex(b, i);
        Err(HexError::InvalidHexCharacter { c: b[i] as char, index: i as usize })
    } else {
        Ok(Seq::new((b.len() / 2) as nat, |i: int| (hex_byte_val(b[2 * i]) * 16 + hex_byte_val(b[2 * i + 1])) as u8))
    }
}

/// Hex decoding of a string, over its UTF-8 bytes.
pub open spec fn hex_decode(s: Seq<char>) -> Result<Seq<u8>, HexError> {
    hex_decode_bytes(encode_utf8(s))
}

proof fn lemma_first_non_hex_unique(b: Seq<u8>, i: int, j: int)
    requires
        first_non_hex(b, i),
        first_non_hex(b, j),
    ensures
        i == j,
{
    if i < j {
        assert(is_hex_byte(b[i]));
    } else if j < i {
        assert(is_hex_byte(b[j]));
    }
}

proof fn lemma_no_non_hex(b: Seq<u8>)
    requires
        forall|j: int| 0 <= j < b.len() ==> is_hex_byte(#[trigger] b[j]),
    ensures
        !exists|i: int| first_non_hex(b, i),
{
}

proof fn lemma_hex_digit_roundtrip(v: nat)
    requires
        v < 16,
    ensures
        (hex_digit(v) as u32) < 128,
        is_hex_byte(hex_digit(v) as u8),
        hex_byte_val(hex_digit(v) as u8) == v,
{
}

/// Decoding an encoding gives back the bytes.
pub proof fn lemma_hex_roundtrip(b: Seq<u8>)
    ensures
        hex_decode(hex_encode(b)) == Ok::<Seq<u8>, HexError>(b),
{
    let s = hex_encode(b);
    assert forall|i: int| 0 <= i < s.len() implies '\0' <= #[trigger] s[i] <= '\u{7f}' by {
        lemma_hex_digit_roundtrip((b[i / 2] / 16) as nat);
        lemma_hex_digit_roundtrip((b[i / 2] % 16) as nat);
    }
    assert(vstd::utf8::is_ascii_chars(s));
    vstd::utf8::is_ascii_chars_encode_utf8(s);
    let e = encode_utf8(s);
    assert forall|j: int| 0 <= j < e.len() implies is_hex_byte(#[trigger] e[j]) by {
        assert(e[j] == s[j] as u8);
        lemma_hex_digit_roundtrip((b[j / 2] / 16) as nat);
        lemma_hex_digit_roundtrip((b[j / 2] % 16) as nat);
    }
    lemma_no_non_hex(e);
    let d = hex_decode(s)->Ok_0;
    assert(d.len() == b.len());
    assert forall|i: int| 0 <= i < b.len() implies d[i] == b[i] by {
        assert((2 * i) / 2 == i);
        assert((2 * i + 1) / 2 == i);
        assert((2 * i) % 2 == 0);
        assert((2 * i + 1) % 2 == 1);
        lemma_hex_digit_roundtrip((b[i] / 16) as nat);
        lemma_hex_digit_roundtrip((b[i] % 16) as nat);
        assert(e[2 * i] == s[2 * i] as u8);
        assert(e[2 * i + 1] == s[2 * i + 1] as u8);
        assert(s[2 * i] == hex_digit((b[i] / 16) as nat));
        assert(s[2 * i + 1] == hex_digit((b[i] % 16) as nat));
    }
    assert(d =~= b);
}

fn hex_digit_str(v: u8) -> (s: &'static str)
    requires
        v < 16,
    ensures
        s@ == seq![hex_digit(v as nat)],
{
    proof {
        reveal_strlit("0"); reveal_strlit("1"); reveal_strlit("2"); reveal_strlit("3");
        reveal_strlit("4"); reveal_strlit("5"); reveal_strlit("6"); reveal_strlit("7");
        reveal_strlit("8"); reveal_strlit("9"); reveal_strlit("a"); reveal_strlit("b");
        reveal_strlit("c"); reveal_strlit("d"); reveal_strlit("e"); reveal_strlit("f");
    }
    if v == 0 { "0" } else if v == 1 { "1" } else if v == 2 { "2" } else if v == 3 { "3" }
    else if v == 4 { "4" } else if v == 5 { "5" } else if v == 6 { "6" } else if v == 7 { "7" }
    else if v == 8 { "8" } else if v == 9 { "9" } else if v == 10 { "a" } else if v == 11 { "b" }
    else if v == 12 { "c" } else if v == 13 { "d" } else if v == 14 { "e" } else { "f" }
}

/// Lowercase hex encoding of `bytes`.
pub fn encode(bytes: &[u8]) -> (s: String)
    ensures
        s@ == hex_encode(bytes@),
{
    let mut s = String::new();
    let mut i: usize = 0;
    while i < bytes.len()
        invariant
            i <= bytes@.len(),
            s@ == hex_encode(bytes@.subrange(0, i as int)),
        decreases bytes@.len() - i,
    {
        let b = bytes[i];
        let ghost before = s@;
        s.append(hex_digit_str(b / 16));
        s.append(hex_digit_str(b % 16));
        proof {
            let prefix = bytes@.subrange(0, i + 1);
            assert(prefix.subrange(0, i as int) =~= bytes@.subrange(0, i as int));
            assert(s@ =~= hex_encode(prefix)) by {
                assert forall|k: int| 0 <= k < 2 * prefix.len() implies s@[k] == hex_encode(prefix)[k] by {
                    if k < 2 * i {
                        assert(k / 2 < i);
                        assert(before[k] == hex_encode(bytes@.subrange(0, i as int))[k]);
                    } else {
                        assert(k / 2 == i);
                    }
                }
            }
        }
        i = i + 1;
    }
    assert(bytes@.subrange(0, bytes@.len() as int) =~= bytes@);
    s
}

fn hex_byte_value(b: u8, index: usize) -> (r: Result<u8, HexError>)
    ensures
        is_hex_byte(b) ==> r == Ok::<u8, HexError>(hex_byte_val(b) as u8),
        !is_hex_byte(b) ==> r == Err::<u8, HexError>(HexError::InvalidHexCharacter { c: b as char, index }),
{
    if 48 <= b && b <= 57 {
        Ok(b - 48)
    } else if 97 <= b && b <= 102 {
        Ok(b - 87)
    } else if 65 <= b && b <= 70 {
        Ok(b - 55)
    } else {
        Err(HexError::InvalidHexCharacter { c: b as char, index })
    }
}

/// Decode a hex string (either case), as the `hex` crate's `decode` does.
pub fn decode(s: &str) -> (r: Result<Vec<u8>, HexError>)
    ensures
        match r {
            Ok(v) => hex_decode(s@) == Ok::<Seq<u8>, HexError>(v@),
            Err(e) => hex_decode(s@) == Err::<Seq<u8>, HexError>(e),
        },
{
    let bytes = s.as_bytes();
    let n = bytes.len();
    if n % 2 != 0 {
        return Err(HexError::OddLength);
    }
    let mut out: Vec<u8> = Vec::new();
    let mut i: usize = 0;
    while i < n / 2
        invariant
            bytes@ == encode_utf8(s@),
            n == bytes@.len(),
            n % 2 == 0,
            i <= n / 2,
            forall|k: int| 0 <= k < 2 * i ==> is_hex_byte(#[trigger] bytes@[k]),
            out@.len() == i,
            forall|k: int| 0 <= k < i ==> #[trigger] out@[k] == (hex_byte_val(bytes@[2 * k]) * 16 + hex_byte_val(bytes@[2 * k + 1])) as u8,
        decreases n / 2 - i,
    {
        let hi = match hex_byte_value(bytes[2 * i], 2 * i) {
            Ok(h) => h,
            Err(e) => {
                proof {
                    assert(first_non_hex(bytes@, 2 * i as int));
                    assert forall|j: int| first_non_hex(bytes@, j) implies j == 2 * i by {
                        lemma_first_non_hex_unique(bytes@, j, 2 * i as int);
                    }
                }
                return Err(e);
            },
        };
        let lo = match hex_byte_value(bytes[2 * i + 1], 2 * i + 1) {
            Ok(l) => l,
            Err(e) => {
                proof {
                    assert forall|j: int| 0 <= j < 2 * i + 1 implies is_hex_byte(#[trigger] bytes@[j]) by {
                        if j == 2 * i {
                        }
                    }
                    assert(first_non_hex(bytes@, 2 * i + 1));
                    assert forall|j: int| first_non_hex(bytes@, j) implies j == 2 * i + 1 by {
                        lemma_first_non_hex_unique(bytes@, j, 2 * i + 1);
                    }
                }
                return Err(e);
            },
        };
        out.push(hi * 16 + lo);
        proof {
            assert forall|k: int| 0 <= k < 2 * (i + 1) implies is_hex_byte(#[trigger] bytes@[k]) by {
                if k >= 2 * i {
                    assert(k == 2 * i || k == 2 * i + 1);
                }
            }
        }
        i = i + 1;
    }
    proof {
        lemma_no_non_hex(bytes@);
        assert(hex_decode(s@)->Ok_0 =~= out@);
    }
    Ok(out)
}

} // verus!
