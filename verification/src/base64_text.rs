//! Base64 as the level server writes it: with the URL-safe alphabet and no padding, or with the
//! standard alphabet and padding.
use vstd::prelude::*;

verus! {

/// A way of writing bytes in Base64.
pub enum Variant {
    /// The standard alphabet, padded with `=` to a multiple of four characters.
    Standard,
    /// The URL-safe alphabet, without padding.
    UrlSafe,
}

/// The character that stands for the six bits of `v`.
pub open spec fn symbol(variant: Variant, v: int) -> char {
    if v < 26 {
        (65 + v) as char
    } else if v < 52 {
        (97 + (v - 26)) as char
    } else if v < 62 {
        (48 + (v - 52)) as char
    } else if v == 62 {
        match variant {
            Variant::Standard => '+',
            Variant::UrlSafe => '-',
        }
    } else {
        match variant {
            Variant::Standard => '/',
            Variant::UrlSafe => '_',
        }
    }
}

/// The `n` characters that fill up the last group of four.
pub open spec fn padding(variant: Variant, n: nat) -> Seq<char> {
    match variant {
        Variant::Standard => Seq::new(n, |i: int| '='),
        Variant::UrlSafe => Seq::empty(),
    }
}

/// `bytes` written in Base64: four characters for every three bytes, six bits each, with zero bits
/// added at the end as needed.
pub open spec fn encoded(variant: Variant, bytes: Seq<u8>) -> Seq<char>
    decreases bytes.len(),
{
    if bytes.len() == 0 {
        Seq::empty()
    } else if bytes.len() == 1 {
        let n = bytes[0] * 16;
        seq![symbol(variant, n / 64), symbol(variant, n % 64)] + padding(variant, 2)
    } else if bytes.len() == 2 {
        let n = (bytes[0] * 256 + bytes[1]) * 4;
        seq![
            symbol(variant, n / 4096),
            symbol(variant, n / 64 % 64),
            symbol(variant, n % 64),
        ] + padding(variant, 1)
    } else {
        let n = bytes[0] * 65536 + bytes[1] * 256 + bytes[2];
        seq![
            symbol(variant, n / 262144),
            symbol(variant, n / 4096 % 64),
            symbol(variant, n / 64 % 64),
            symbol(variant, n % 64),
        ] + encoded(variant, bytes.skip(3))
    }
}

/// The bytes that `text` is the Base64 of, if it is the Base64 of any.
pub open spec fn decoded(variant: Variant, text: Seq<char>) -> Option<Seq<u8>> {
    if exists|bytes: Seq<u8>| encoded(variant, bytes) == text {
        Some(choose|bytes: Seq<u8>| encoded(variant, bytes) == text)
    } else {
        None
    }
}

/// The bytes that `text` is the Base64 of in the URL-safe variant or else in the standard one.
pub open spec fn decoded_either(text: Seq<char>) -> Option<Seq<u8>> {
    match decoded(Variant::UrlSafe, text) {
        Some(bytes) => Some(bytes),
        None => decoded(Variant::Standard, text),
    }
}

/// The error of [`base64::Engine::decode`], which nothing looks into.
#[verifier::external_type_specification]
#[verifier::external_body]
pub struct ExDecodeError(base64::DecodeError);

/// [`base64::Engine::decode`] with the engine `URL_SAFE_NO_PAD`, which takes neither padding nor
/// set bits after the last byte. It succeeds exactly on what encoding gives, and gives back what
/// was encoded.
#[verifier::external_body]
fn decode_url_safe(text: &str) -> (r: Result<Vec<u8>, base64::DecodeError>)
    ensures
        match r {
            Ok(bytes) => encoded(Variant::UrlSafe, bytes@) == text@,
            Err(_) => forall|bytes: Seq<u8>| encoded(Variant::UrlSafe, bytes) != text@,
        },
{
    base64::Engine::decode(&base64::engine::general_purpose::URL_SAFE_NO_PAD, text)
}

/// [`base64::Engine::decode`] with the engine `STANDARD`, which asks for the padding and takes no
/// set bits after the last byte. It succeeds exactly on what encoding gives, and gives back what
/// was encoded.
#[verifier::external_body]
fn decode_standard(text: &str) -> (r: Result<Vec<u8>, base64::DecodeError>)
    ensures
        match r {
            Ok(bytes) => encoded(Variant::Standard, bytes@) == text@,
            Err(_) => forall|bytes: Seq<u8>| encoded(Variant::Standard, bytes) != text@,
        },
{
    base64::Engine::decode(&base64::engine::general_purpose::STANDARD, text)
}

/// Decodes URL-safe Base64, or else standard Base64.
pub fn decode_either(text: &str) -> (r: Option<Vec<u8>>)
    ensures
        match r {
            Some(bytes) => decoded_either(text@) == Some(bytes@),
            None => decoded_either(text@) is None,
        },
{
    match decode_url_safe(text) {
        Ok(bytes) => {
            proof {
                law_decoded(Variant::UrlSafe, bytes@);
            }
            Some(bytes)
        },
        Err(_) => match decode_standard(text) {
            Ok(bytes) => {
                proof {
                    law_decoded(Variant::Standard, bytes@);
                }
                Some(bytes)
            },
            Err(_) => None,
        },
    }
}

/// In either variant a symbol stands for one value only, and padding for none.
proof fn lemma_symbols(v: Variant, x: int, w: Variant, y: int)
    requires
        0 <= x < 64,
        0 <= y < 64,
    ensures
        symbol(v, x) == symbol(w, y) ==> x == y,
        symbol(v, x) != '=',
{
}

/// Two byte sequences with the same Base64 text, be it in two variants, are the same.
proof fn lemma_encoded_injective(v: Variant, a: Seq<u8>, w: Variant, b: Seq<u8>)
    requires
        encoded(v, a) == encoded(w, b),
    ensures
        a == b,
    decreases a.len(),
{
    lemma_encoded_len(v, a);
    lemma_encoded_len(w, b);
    if a.len() == 0 || b.len() == 0 {
        assert(a == b);
    } else {
        lemma_same_first_group(v, a, w, b);
        lemma_group_bytes(a, b);
        if a.len() >= 3 && b.len() >= 3 {
            assert(encoded(v, a).skip(4) == encoded(v, a.skip(3)));
            assert(encoded(w, b).skip(4) == encoded(w, b.skip(3)));
            lemma_encoded_injective(v, a.skip(3), w, b.skip(3));
            assert(a == seq![a[0], a[1], a[2]] + a.skip(3));
            assert(b == seq![b[0], b[1], b[2]] + b.skip(3));
        } else {
            assert(a == b);
        }
    }
}

/// `s` starts with the Base64 of `n`, which is the first group of `count` bytes.
spec fn starts_with_group(s: Seq<char>, v: Variant, n: int, count: nat) -> bool {
    &&& s[0] == symbol(v, n / 262144)
    &&& s[1] == symbol(v, n / 4096 % 64)
    &&& count > 1 ==> s[2] == symbol(v, n / 64 % 64)
    &&& count > 2 ==> s[3] == symbol(v, n % 64)
    &&& count == 1 && v is Standard ==> s[2] == '='
    &&& count <= 2 && v is Standard ==> s[3] == '='
    &&& count == 1 ==> s.len() == (if v is Standard {
        4int
    } else {
        2
    })
    &&& count == 2 ==> s.len() == (if v is Standard {
        4int
    } else {
        3
    })
    &&& count > 2 ==> s.len() >= 4
    &&& v is Standard ==> s.len() % 4 == 0
}

/// A group that misses bytes ends in zeros.
spec fn group_fits(n: int, count: nat) -> bool {
    &&& 0 <= n < 16777216
    &&& count == 1 ==> n % 4096 == 0
    &&& count == 2 ==> n % 64 == 0
}

/// Texts determine the group that they start with.
proof fn lemma_group_of_text(s: Seq<char>, v: Variant, x: int, a: nat, w: Variant, y: int, b: nat)
    requires
        a > 0,
        b > 0,
        group_fits(x, a),
        group_fits(y, b),
        starts_with_group(s, v, x, a),
        starts_with_group(s, w, y, b),
    ensures
        x == y,
        a < 3 || b < 3 ==> a == b,
{
    let (x0, x1, x2, x3) = (x / 262144, x / 4096 % 64, x / 64 % 64, x % 64);
    let (y0, y1, y2, y3) = (y / 262144, y / 4096 % 64, y / 64 % 64, y % 64);
    lemma_sextets(x);
    lemma_sextets(y);
    lemma_symbols(v, x0, w, y0);
    lemma_symbols(v, x1, w, y1);
    lemma_symbols(v, x2, w, y2);
    lemma_symbols(v, x3, w, y3);
    lemma_symbols(w, y2, v, x2);
    lemma_symbols(w, y3, v, x3);
}

/// A group is made of four times six bits.
proof fn lemma_sextets(n: int)
    requires
        0 <= n < 16777216,
    ensures
        0 <= n / 262144 < 64,
        n == n / 262144 * 262144 + n / 4096 % 64 * 4096 + n / 64 % 64 * 64 + n % 64,
        n % 4096 == 0 ==> n / 64 % 64 == 0 && n % 64 == 0,
{
}

/// Equal Base64 texts start with equal groups.
proof fn lemma_same_first_group(v: Variant, a: Seq<u8>, w: Variant, b: Seq<u8>)
    requires
        encoded(v, a) == encoded(w, b),
        a.len() > 0,
        b.len() > 0,
    ensures
        first_group(a) == first_group(b),
        a.len() < 3 || b.len() < 3 ==> a.len() == b.len(),
{
    lemma_first_group(v, a);
    lemma_first_group(w, b);
    lemma_group_of_text(
        encoded(v, a),
        v,
        first_group(a),
        a.len(),
        w,
        first_group(b),
        b.len(),
    );
}

/// A group determines the bytes in it.
proof fn lemma_group_bytes(a: Seq<u8>, b: Seq<u8>)
    requires
        first_group(a) == first_group(b),
        a.len() > 0,
        b.len() > 0,
    ensures
        a[0] == b[0],
        a.len() > 1 && b.len() > 1 ==> a[1] == b[1],
        a.len() > 2 && b.len() > 2 ==> a[2] == b[2],
{
    reveal(first_group);
}

/// The first three bytes as one number, with zeros for bytes that are missing.
#[verifier::opaque]
spec fn first_group(bytes: Seq<u8>) -> int {
    let b1: int = if bytes.len() > 1 {
        bytes[1] as int
    } else {
        0
    };
    let b2: int = if bytes.len() > 2 {
        bytes[2] as int
    } else {
        0
    };
    bytes[0] * 65536 + b1 * 256 + b2
}

/// What the first characters of a Base64 text are.
proof fn lemma_first_group(v: Variant, bytes: Seq<u8>)
    requires
        bytes.len() > 0,
    ensures
        group_fits(first_group(bytes), bytes.len()),
        starts_with_group(encoded(v, bytes), v, first_group(bytes), bytes.len()),
{
    reveal(first_group);
    lemma_encoded_len(v, bytes);
}

/// How long a Base64 text is.
proof fn lemma_encoded_len(v: Variant, bytes: Seq<u8>)
    ensures
        bytes.len() == 0 ==> encoded(v, bytes).len() == 0,
        bytes.len() == 1 ==> encoded(v, bytes).len() == (if v is Standard {
            4int
        } else {
            2
        }),
        bytes.len() == 2 ==> encoded(v, bytes).len() == (if v is Standard {
            4int
        } else {
            3
        }),
        bytes.len() > 2 ==> encoded(v, bytes).len() >= 4,
        v is Standard ==> encoded(v, bytes).len() % 4 == 0,
    decreases bytes.len(),
{
    if bytes.len() > 2 {
        lemma_encoded_len(v, bytes.skip(3));
    }
}

/// Decoding gives back what was encoded.
pub proof fn law_decoded(variant: Variant, bytes: Seq<u8>)
    ensures
        decoded(variant, encoded(variant, bytes)) == Some(bytes),
{
    let text = encoded(variant, bytes);
    let other = choose|b: Seq<u8>| encoded(variant, b) == text;
    lemma_encoded_injective(variant, other, variant, bytes);
}

/// A text is read alike in whichever variant it was written, although the URL-safe one is tried
/// first.
pub proof fn law_decoded_either(variant: Variant, bytes: Seq<u8>)
    ensures
        decoded_either(encoded(variant, bytes)) == Some(bytes),
{
    let text = encoded(variant, bytes);
    law_decoded(variant, bytes);
    if let Some(other) = decoded(Variant::UrlSafe, text) {
        lemma_encoded_injective(Variant::UrlSafe, other, variant, bytes);
    }
}

/// Whatever is read was written: a text that decodes to some bytes is their Base64 in one of the
/// variants.
pub proof fn law_decoded_was_encoded(text: Seq<char>, bytes: Seq<u8>)
    requires
        decoded_either(text) == Some(bytes),
    ensures
        text == encoded(Variant::UrlSafe, bytes) || text == encoded(Variant::Standard, bytes),
{
}

} // verus!
