//! Digests and encodings of bytes: SHA-256, hexadecimal and Base64.
use base64::engine::general_purpose::STANDARD;
use base64::Engine;
use sha2::{Digest, Sha256};
use vstd::prelude::*;

verus! {

/// sha2's running SHA-256.
#[verifier::external_type_specification]
#[verifier::external_body]
pub struct ExSha256(sha2::Sha256);

/// The bytes that a running SHA-256 has taken in.
pub uninterp spec fn absorbed(hasher: Sha256) -> Seq<u8>;

/// The SHA-256 digest of bytes.
pub uninterp spec fn sha256(bytes: Seq<u8>) -> Seq<u8>;

/// `Sha256::new` has taken in nothing.
#[verifier::external_body]
pub(crate) fn new_hasher() -> (hasher: Sha256)
    ensures
        absorbed(hasher) == Seq::<u8>::empty(),
{
    Sha256::new()
}

/// `Sha256::update` takes bytes in behind those taken in before.
#[verifier::external_body]
pub(crate) fn absorb(hasher: &mut Sha256, bytes: &[u8])
    ensures
        absorbed(*final(hasher)) == absorbed(*old(hasher)) + bytes@,
{
    hasher.update(bytes);
}

/// `Sha256::finalize`, on a copy, gives the digest of what was taken in: 32 bytes. The digest is
/// not spelled out here.
#[verifier::external_body]
pub(crate) fn digest_of(hasher: &Sha256) -> (digest: Vec<u8>)
    ensures
        digest@ == sha256(absorbed(*hasher)),
        digest@.len() == 32,
{
    hasher.clone().finalize().to_vec()
}

/// A hexadecimal digit, in lower case.
pub open spec fn hex_digit(n: int) -> char {
    if n < 10 {
        ('0' as u32 + n) as char
    } else {
        ('a' as u32 + (n - 10)) as char
    }
}

/// Bytes in hexadecimal, two lower-case digits each.
pub open spec fn hex_text(bytes: Seq<u8>) -> Seq<char> {
    Seq::new(
        2 * bytes.len(),
        |i: int|
            if i % 2 == 0 {
                hex_digit(bytes[i / 2] as int / 16)
            } else {
                hex_digit(bytes[i / 2] as int % 16)
            },
    )
}

/// `hex::encode` writes each byte as two lower-case hexadecimal digits, the higher one first.
#[verifier::external_body]
pub(crate) fn encode_hex(bytes: &[u8]) -> (text: String)
    ensures
        text@ == hex_text(bytes@),
{
    hex::encode(bytes)
}

/// The character that stands for six bits in Base64.
pub open spec fn base64_char(bits: int) -> char {
    if bits < 26 {
        ('A' as int + bits) as char
    } else if bits < 52 {
        ('a' as int + bits - 26) as char
    } else if bits < 62 {
        ('0' as int + bits - 52) as char
    } else if bits == 62 {
        '+'
    } else {
        '/'
    }
}

/// Bytes in Base64 with the standard alphabet: four characters for three bytes, with `=` in the
/// place of those that the last bytes leave unused.
pub open spec fn base64_text(bytes: Seq<u8>) -> Seq<char>
    decreases bytes.len(),
{
    if bytes.len() == 0 {
        Seq::empty()
    } else {
        let a = bytes[0] as int;
        let b = if bytes.len() > 1 { bytes[1] as int } else { 0 };
        let c = if bytes.len() > 2 { bytes[2] as int } else { 0 };
        seq![
            base64_char(a / 4),
            base64_char(a % 4 * 16 + b / 16),
            if bytes.len() > 1 { base64_char(b % 16 * 4 + c / 64) } else { '=' },
            if bytes.len() > 2 { base64_char(c % 64) } else { '=' },
        ] + if bytes.len() > 3 { base64_text(bytes.skip(3)) } else { Seq::empty() }
    }
}

/// The standard engine's `encode` writes bytes in Base64, with padding.
#[verifier::external_body]
pub(crate) fn encode_base64(bytes: &[u8]) -> (text: String)
    ensures
        text@ == base64_text(bytes@),
{
    STANDARD.encode(bytes)
}

/// The bytes that the standard engine's `decode` reads from a text, where it is Base64.
pub uninterp spec fn base64_bytes(text: Seq<char>) -> Option<Seq<u8>>;

/// The standard engine's `decode` refuses a text or reads it as Base64; what `encode` wrote it
/// reads back. What it accepts beyond that is not spelled out here.
#[verifier::external_body]
pub(crate) fn decode_base64(text: &str) -> (bytes: Option<Vec<u8>>)
    ensures
        match bytes {
            Some(bytes) => base64_bytes(text@) == Some(bytes@),
            None => base64_bytes(text@) is None,
        },
        forall|written: Seq<u8>|
            text@ == #[trigger] base64_text(written) ==> (bytes matches Some(bytes) && bytes@
                == written),
{
    STANDARD.decode(text).ok()
}

/// In hexadecimal each byte is two digits, the higher one first, of `0` to `9` and `a` to `f`.
pub proof fn hexadecimal_is_two_digits_a_byte(bytes: Seq<u8>, i: int)
    requires
        0 <= i < bytes.len(),
    ensures
        hex_text(bytes).len() == 2 * bytes.len(),
        ({
            let high = bytes[i] as int / 16;
            let low = bytes[i] as int % 16;
            &&& high < 10 ==> hex_text(bytes)[2 * i] as int == '0' as int + high
            &&& high >= 10 ==> hex_text(bytes)[2 * i] as int == 'a' as int + high - 10
            &&& low < 10 ==> hex_text(bytes)[2 * i + 1] as int == '0' as int + low
            &&& low >= 10 ==> hex_text(bytes)[2 * i + 1] as int == 'a' as int + low - 10
        }),
{
    assert((2 * i) / 2 == i && (2 * i) % 2 == 0);
    assert((2 * i + 1) / 2 == i && (2 * i + 1) % 2 == 1);
}

/// In Base64 three bytes are four characters of six bits each; the last one or two bytes are filled
/// up with `=`. What follows three bytes is written in the same way.
pub proof fn base64_is_four_characters_for_three_bytes(a: u8, b: u8, c: u8, rest: Seq<u8>)
    ensures
        base64_text(Seq::empty()) == Seq::<char>::empty(),
        base64_text(seq![a]) == seq![
            base64_char(a as int / 4),
            base64_char(a as int % 4 * 16),
            '=',
            '=',
        ],
        base64_text(seq![a, b]) == seq![
            base64_char(a as int / 4),
            base64_char(a as int % 4 * 16 + b as int / 16),
            base64_char(b as int % 16 * 4),
            '=',
        ],
        base64_text(seq![a, b, c] + rest) == seq![
            base64_char(a as int / 4),
            base64_char(a as int % 4 * 16 + b as int / 16),
            base64_char(b as int % 16 * 4 + c as int / 64),
            base64_char(c as int % 64),
        ] + base64_text(rest),
{
    let whole = seq![a, b, c] + rest;
    assert(whole.skip(3) =~= rest);
    assert(base64_text(seq![a]) =~= seq![
        base64_char(a as int / 4),
        base64_char(a as int % 4 * 16),
        '=',
        '=',
    ]);
    assert(base64_text(seq![a, b]) =~= seq![
        base64_char(a as int / 4),
        base64_char(a as int % 4 * 16 + b as int / 16),
        base64_char(b as int % 16 * 4),
        '=',
    ]);
    if rest.len() == 0 {
        assert(base64_text(rest) =~= Seq::<char>::empty());
    }
    assert(base64_text(whole) =~= seq![
        base64_char(a as int / 4),
        base64_char(a as int % 4 * 16 + b as int / 16),
        base64_char(b as int % 16 * 4 + c as int / 64),
        base64_char(c as int % 64),
    ] + base64_text(rest));
}

} // verus!
