//! The seed of a run: 32 bytes, read and shown as 64 hexadecimal digits.

use data_encoding::HEXLOWER_PERMISSIVE;
use rand::rngs::OsRng;
use rand::Rng;
use vstd::prelude::*;
use vstd::string::StringSliceAdditionalSpecFns;
use vstd::utf8::encode_utf8;

verus! {

/// The seed of a random number generator.
pub type Seed = [u8; 32];

/// What is wrong with a text that does not spell a seed.
#[derive(Copy, Clone, Debug, PartialEq, Eq, Structural)]
pub enum DecodeKind {
    /// The text has the wrong length.
    Length,
    /// The text holds a byte that is no hexadecimal digit.
    Symbol,
    /// The text has bits left over.
    Trailing,
    /// The text is padded wrongly.
    Padding,
}

/// Why a text does not spell a seed, and where.
#[derive(Copy, Clone, Debug, PartialEq, Eq, Structural)]
pub struct DecodeError {
    /// The byte position of the error.
    pub position: usize,
    /// The kind of the error.
    pub kind: DecodeKind,
}

/// The value of a hexadecimal digit of either case, or `None` for any other byte.
pub open spec fn hex_value(b: u8) -> Option<int> {
    if 48 <= b <= 57 {
        Some(b - 48)
    } else if 97 <= b <= 102 {
        Some(b - 87)
    } else if 65 <= b <= 70 {
        Some(b - 55)
    } else {
        None
    }
}

/// The lower case hexadecimal digit of `v`.
pub open spec fn hex_digit(v: int) -> char
    recommends
        0 <= v < 16,
{
    if v < 10 {
        (48 + v) as char
    } else {
        (87 + v) as char
    }
}

/// Every byte of `text` is a hexadecimal digit.
pub open spec fn all_hex(text: Seq<u8>) -> bool {
    forall|i: int| 0 <= i < text.len() ==> hex_value(#[trigger] text[i]) is Some
}

/// `p` is the position of the first byte of `text` that is no hexadecimal digit.
pub open spec fn first_non_hex(text: Seq<u8>, p: int) -> bool {
    &&& 0 <= p < text.len()
    &&& hex_value(text[p]) is None
    &&& forall|i: int| 0 <= i < p ==> hex_value(#[trigger] text[i]) is Some
}

/// The bytes that pairs of hexadecimal digits spell, high digit first.
pub open spec fn hex_bytes(text: Seq<u8>) -> Seq<u8> {
    Seq::new(
        text.len() / 2,
        |i: int| (hex_value(text[2 * i])->0 * 16 + hex_value(text[2 * i + 1])->0) as u8,
    )
}

/// `bytes` in lower case hexadecimal digits, high digit first.
pub open spec fn hex_text(bytes: Seq<u8>) -> Seq<char> {
    Seq::new(
        2 * bytes.len(),
        |i: int|
            if i % 2 == 0 {
                hex_digit(bytes[i / 2] as int / 16)
            } else {
                hex_digit(bytes[i / 2] as int % 16)
            },
    )
}

/// The number of bytes that `len` hexadecimal digits spell, or the greatest length below that
/// spells whole bytes.
pub open spec fn decoded_len(len: usize) -> Result<usize, DecodeError> {
    if len % 2 == 0 {
        Ok((len / 2) as usize)
    } else {
        Err(DecodeError { position: (len - 1) as usize, kind: DecodeKind::Length })
    }
}

/// What reading hexadecimal digits must give: the bytes they spell, and else an error about the
/// first byte that is no digit.
pub open spec fn reads_digits(text: Seq<u8>, r: Result<Seq<u8>, DecodeError>) -> bool {
    if all_hex(text) {
        r == Ok::<Seq<u8>, DecodeError>(hex_bytes(text))
    } else {
        &&& r matches Err(e)
        &&& e.kind == DecodeKind::Symbol
        &&& first_non_hex(text, e.position as int)
    }
}

/// What reading a seed out of the bytes of a text must give: the seed that 64 hexadecimal digits
/// spell, and else an error about the length before one about a byte.
pub open spec fn reads_seed(text: Seq<u8>, r: Result<Seq<u8>, DecodeError>) -> bool {
    if text.len() % 2 != 0 {
        r == Err::<Seq<u8>, DecodeError>(
            DecodeError { position: (text.len() - 1) as usize, kind: DecodeKind::Length },
        )
    } else if text.len() != 64 {
        r == Err::<Seq<u8>, DecodeError>(
            DecodeError { position: text.len() as usize, kind: DecodeKind::Length },
        )
    } else {
        reads_digits(text, r)
    }
}

/// The seed of a result as a sequence.
pub open spec fn seed_view(r: Result<Seed, DecodeError>) -> Result<Seq<u8>, DecodeError> {
    match r {
        Ok(seed) => Ok(seed@),
        Err(e) => Err(e),
    }
}

/// Calls `Encoding::decode_len` of `data_encoding` on its permissive hexadecimal encoding: two
/// digits make a byte, and an odd length is refused at the greatest even one below it. The
/// function asserts that the length is at most an eighth of `usize::MAX`.
#[verifier::external_body]
fn hex_decode_len(len: usize) -> (r: Result<usize, DecodeError>)
    requires
        len <= usize::MAX / 8,
    ensures
        r == decoded_len(len),
{
    HEXLOWER_PERMISSIVE.decode_len(len).map_err(
        |e|
            DecodeError {
                position: e.position,
                kind: match e.kind {
                    data_encoding::DecodeKind::Length => DecodeKind::Length,
                    data_encoding::DecodeKind::Symbol => DecodeKind::Symbol,
                    data_encoding::DecodeKind::Trailing => DecodeKind::Trailing,
                    data_encoding::DecodeKind::Padding => DecodeKind::Padding,
                },
            },
    )
}

/// Calls `Encoding::decode_mut` of `data_encoding` on its permissive hexadecimal encoding: 64
/// digits of either case are turned into 32 bytes, and else the first byte that is no digit is
/// reported. The function panics where the output has another length than the digits spell.
#[verifier::external_body]
fn hex_decode(text: &[u8]) -> (r: Result<Seed, DecodeError>)
    requires
        text@.len() == 64,
    ensures
        reads_digits(text@, seed_view(r)),
{
    let mut seed = [0u8; 32];
    match HEXLOWER_PERMISSIVE.decode_mut(text, &mut seed) {
        Ok(_) => Ok(seed),
        Err(e) => Err(
            DecodeError {
                position: e.error.position,
                kind: match e.error.kind {
                    data_encoding::DecodeKind::Length => DecodeKind::Length,
                    data_encoding::DecodeKind::Symbol => DecodeKind::Symbol,
                    data_encoding::DecodeKind::Trailing => DecodeKind::Trailing,
                    data_encoding::DecodeKind::Padding => DecodeKind::Padding,
                },
            },
        ),
    }
}

/// Calls `Encoding::encode` of `data_encoding` on its permissive hexadecimal encoding, which
/// writes each byte as two lower case digits.
#[verifier::external_body]
fn hex_encode(bytes: &Seed) -> (r: String)
    ensures
        r@ == hex_text(bytes@),
{
    HEXLOWER_PERMISSIVE.encode(bytes)
}

/// Calls `Rng::gen` of `rand` on the generator of the operating system. Nothing is known of the
/// bytes that come back, nor does the call come back where the operating system has none.
#[verifier::external_body]
fn os_seed() -> (r: Seed) {
    OsRng.gen()
}

/// Parses a 64-digit hex string into an RNG seed.
pub fn seed_from_str(s: &str) -> (r: Result<Seed, DecodeError>)
    ensures
        reads_seed(s.spec_bytes(), seed_view(r)),
{
    let text = s.as_bytes();
    if text.len() > usize::MAX / 8 {
        // The decoder does not take texts of this length.
        let position: usize = text.len() - text.len() % 2;
        return Err(DecodeError { position, kind: DecodeKind::Length });
    }
    match hex_decode_len(text.len()) {
        Err(e) => Err(e),
        Ok(len) => {
            if len != 32 {
                return Err(DecodeError { position: text.len(), kind: DecodeKind::Length });
            }
            hex_decode(text)
        },
    }
}

/// Shows a seed as 64 hexadecimal digits.
pub fn seed_to_string(seed: &Seed) -> (r: String)
    ensures
        r@ == hex_text(seed@),
{
    hex_encode(seed)
}

/// The seed of a run: the one asked for, and a fresh one of the operating system where none was.
pub fn meta_seed(requested: Option<Seed>) -> (r: Seed)
    ensures
        requested matches Some(seed) ==> r == seed,
{
    match requested {
        Some(seed) => seed,
        None => os_seed(),
    }
}

/// The upper case form of a hexadecimal digit.
pub open spec fn upper_digit(c: char) -> char {
    if 97 <= c as int <= 102 {
        (c as int - 32) as char
    } else {
        c
    }
}

/// `bytes` in upper case hexadecimal digits, high digit first.
pub open spec fn upper_hex_text(bytes: Seq<u8>) -> Seq<char> {
    hex_text(bytes).map_values(|c: char| upper_digit(c))
}

/// A byte with the case of a letter taken away.
pub open spec fn caseless(b: u8) -> int {
    if 65 <= b <= 90 {
        b + 32
    } else {
        b as int
    }
}

/// The texts agree up to the case of their letters.
pub open spec fn same_but_case(a: Seq<u8>, b: Seq<u8>) -> bool {
    &&& a.len() == b.len()
    &&& forall|i: int| 0 <= i < a.len() ==> caseless(#[trigger] a[i]) == caseless(b[i])
}

/// Hexadecimal digits of either case are ASCII characters.
proof fn hex_text_is_ascii(seed: Seq<u8>)
    ensures
        vstd::utf8::is_ascii_chars(hex_text(seed)),
        vstd::utf8::is_ascii_chars(upper_hex_text(seed)),
{
    let lower = hex_text(seed);
    let upper = upper_hex_text(seed);
    assert forall|i: int| 0 <= i < lower.len() implies '\0' <= #[trigger] lower[i]
        <= '\u{7f}' by {}
    assert forall|i: int| 0 <= i < upper.len() implies '\0' <= #[trigger] upper[i]
        <= '\u{7f}' by {
        assert(upper[i] == upper_digit(lower[i]));
    }
}

/// The UTF-8 bytes of ASCII characters are those characters.
proof fn ascii_bytes(text: Seq<char>)
    requires
        vstd::utf8::is_ascii_chars(text),
    ensures
        encode_utf8(text) =~= Seq::new(text.len(), |i: int| text[i] as u8),
{
    vstd::utf8::is_ascii_chars_encode_utf8(text);
}

/// Hexadecimal digits have the same value exactly if they agree up to their case.
proof fn digit_value_is_caseless(a: u8, b: u8)
    ensures
        hex_value(a) is Some && hex_value(b) is Some ==> (hex_value(a) == hex_value(b) <==> caseless(
            a,
        ) == caseless(b)),
        hex_value(a) is Some && caseless(a) == caseless(b) ==> hex_value(b) == hex_value(a),
{
}

/// Two texts that are read as seeds are read as the same one exactly if they agree up to the case
/// of their letters.
pub proof fn seeds_agree_up_to_case(a: Seq<u8>, b: Seq<u8>, x: Seq<u8>, y: Seq<u8>)
    requires
        reads_seed(a, Ok(x)),
        reads_seed(b, Ok(y)),
    ensures
        x == y <==> same_but_case(a, b),
{
    if x == y {
        assert forall|i: int| 0 <= i < a.len() implies caseless(#[trigger] a[i]) == caseless(
            b[i],
        ) by {
            let k = i / 2;
            assert(x[k] == y[k]);
            assert(hex_value(a[2 * k]) is Some && hex_value(a[2 * k + 1]) is Some);
            assert(hex_value(b[2 * k]) is Some && hex_value(b[2 * k + 1]) is Some);
            digit_value_is_caseless(a[i], b[i]);
            assert(i == 2 * k || i == 2 * k + 1);
        }
    }
    if same_but_case(a, b) {
        assert forall|k: int| 0 <= k < x.len() implies x[k] == y[k] by {
            digit_value_is_caseless(a[2 * k], b[2 * k]);
            digit_value_is_caseless(a[2 * k + 1], b[2 * k + 1]);
            assert(hex_value(a[2 * k]) is Some && hex_value(a[2 * k + 1]) is Some);
            assert(hex_value(b[2 * k]) is Some && hex_value(b[2 * k + 1]) is Some);
        }
        assert(x =~= y);
    }
}

/// A text that agrees with a shown seed up to the case of its letters is read as that seed.
pub proof fn seed_reads_back_in_any_case(
    seed: Seq<u8>,
    text: Seq<u8>,
    r: Result<Seq<u8>, DecodeError>,
)
    requires
        seed.len() == 32,
        same_but_case(text, encode_utf8(hex_text(seed))),
        reads_seed(text, r),
    ensures
        r == Ok::<Seq<u8>, DecodeError>(seed),
{
    hex_text_is_ascii(seed);
    ascii_bytes(hex_text(seed));
    let shown = encode_utf8(hex_text(seed));
    assert forall|i: int| 0 <= i < text.len() implies hex_value(#[trigger] text[i]) is Some by {
        digit_value_is_caseless(shown[i], text[i]);
    }
    assert forall|i: int| 0 <= i < 32 implies hex_bytes(text)[i] == seed[i] by {
        assert(shown[2 * i] == hex_digit(seed[i] as int / 16) as u8);
        assert(shown[2 * i + 1] == hex_digit(seed[i] as int % 16) as u8);
        digit_value_is_caseless(shown[2 * i], text[2 * i]);
        digit_value_is_caseless(shown[2 * i + 1], text[2 * i + 1]);
        assert(caseless(text[2 * i]) == caseless(shown[2 * i]));
        assert(caseless(text[2 * i + 1]) == caseless(shown[2 * i + 1]));
    }
    assert(hex_bytes(text) =~= seed);
}

/// A seed that was shown is read back unchanged.
pub proof fn shown_seed_reads_back(seed: Seq<u8>, r: Result<Seq<u8>, DecodeError>)
    requires
        seed.len() == 32,
        reads_seed(encode_utf8(hex_text(seed)), r),
    ensures
        r == Ok::<Seq<u8>, DecodeError>(seed),
{
    seed_reads_back_in_any_case(seed, encode_utf8(hex_text(seed)), r);
}

/// A seed in upper case digits is read back unchanged, too.
pub proof fn upper_case_seed_reads_back(seed: Seq<u8>, r: Result<Seq<u8>, DecodeError>)
    requires
        seed.len() == 32,
        reads_seed(encode_utf8(upper_hex_text(seed)), r),
    ensures
        r == Ok::<Seq<u8>, DecodeError>(seed),
{
    let lower = hex_text(seed);
    let upper = upper_hex_text(seed);
    hex_text_is_ascii(seed);
    ascii_bytes(lower);
    ascii_bytes(upper);
    assert forall|i: int| 0 <= i < upper.len() implies caseless(
        #[trigger] encode_utf8(upper)[i],
    ) == caseless(encode_utf8(lower)[i]) by {
        assert(upper[i] == upper_digit(lower[i]));
    }
    seed_reads_back_in_any_case(seed, encode_utf8(upper), r);
}

/// The byte `b` is a hexadecimal digit of either case for the value `v`.
pub open spec fn is_digit_for(b: int, v: int) -> bool {
    ||| 0 <= v < 10 && b == 48 + v
    ||| 10 <= v < 16 && b == 87 + v
    ||| 10 <= v < 16 && b == 55 + v
}

/// The byte `b` is a decimal digit, or one of the first six letters in either case.
pub open spec fn is_hex_byte(b: u8) -> bool {
    48 <= b <= 57 || 65 <= b <= 70 || 97 <= b <= 102
}

/// A text is read as a seed exactly if it is 64 hexadecimal digits, and the seed is then the bytes
/// that the pairs of digits stand for, high digit first. Otherwise the error tells of the length, and
/// only if that is right of the first byte that is no digit.
pub proof fn only_digits_make_a_seed(text: Seq<u8>, r: Result<Seq<u8>, DecodeError>)
    requires
        reads_seed(text, r),
        text.len() <= usize::MAX,
    ensures
        r is Ok <==> text.len() == 64 && forall|i: int|
            0 <= i < 64 ==> is_hex_byte(#[trigger] text[i]),
        r matches Ok(seed) ==> seed.len() == 32 && forall|i: int|
            0 <= i < 32 ==> is_digit_for(text[2 * i] as int, #[trigger] seed[i] as int / 16)
                && is_digit_for(text[2 * i + 1] as int, seed[i] as int % 16),
        r matches Err(e) ==> {
            &&& text.len() % 2 == 1 ==> e.kind == DecodeKind::Length && e.position == text.len() - 1
            &&& text.len() % 2 == 0 && text.len() != 64 ==> e.kind == DecodeKind::Length
                && e.position == text.len()
            &&& text.len() == 64 ==> {
                &&& e.kind == DecodeKind::Symbol
                &&& e.position < 64
                &&& !is_hex_byte(text[e.position as int])
                &&& forall|i: int| 0 <= i < e.position ==> is_hex_byte(#[trigger] text[i])
            }
        },
{
    assert forall|i: int| 0 <= i < text.len() implies is_hex_byte(#[trigger] text[i]) == (hex_value(
        text[i],
    ) is Some) by {}
    if let Ok(seed) = r {
        assert(text.len() == 64 && all_hex(text) && seed == hex_bytes(text));
        assert forall|i: int| 0 <= i < 32 implies is_digit_for(
            text[2 * i] as int,
            #[trigger] seed[i] as int / 16,
        ) && is_digit_for(text[2 * i + 1] as int, seed[i] as int % 16) by {
            assert(hex_value(text[2 * i]) is Some && hex_value(text[2 * i + 1]) is Some);
            let h = hex_value(text[2 * i])->0;
            let l = hex_value(text[2 * i + 1])->0;
            assert(seed[i] == 16 * h + l);
        }
    }
    if text.len() == 64 && (forall|i: int| 0 <= i < 64 ==> is_hex_byte(#[trigger] text[i])) {
        assert(all_hex(text));
    }
}

/// A seed is shown as two lower case digits for each byte, high digit first.
pub proof fn seed_is_shown_in_digits(bytes: Seq<u8>)
    ensures
        hex_text(bytes).len() == 2 * bytes.len(),
        forall|i: int|
            0 <= i < bytes.len() ==> {
                &&& is_digit_for(hex_text(bytes)[2 * i] as int, #[trigger] bytes[i] as int / 16)
                &&& is_digit_for(hex_text(bytes)[2 * i + 1] as int, bytes[i] as int % 16)
            },
        forall|k: int|
            0 <= k < 2 * bytes.len() ==> !(65 <= #[trigger] hex_text(bytes)[k] as int && hex_text(
                bytes,
            )[k] as int <= 70),
{
}

} // verus!
