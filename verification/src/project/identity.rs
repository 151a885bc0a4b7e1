use crate::text::{hex_lower, is_base64_url_char, to_hex_lower};
use vstd::prelude::*;
use vstd::string::StringExecFns;

verus! {

/// The fixed, public text that is hashed together with a project's identifier to make its
/// signing key.
pub open spec fn key_salt() -> Seq<char> {
    "BitSink"@
}

/// The hyphenated lower-case form of a sixteen-byte identifier: thirty-two hexadecimal
/// digits in groups of 8, 4, 4, 4 and 12.
pub open spec fn uuid_text(id: Seq<u8>) -> Seq<char> {
    let digits = hex_lower(id);
    digits.subrange(0, 8) + seq!['-'] + digits.subrange(8, 12) + seq!['-'] + digits.subrange(
        12,
        16,
    ) + seq!['-'] + digits.subrange(16, 20) + seq!['-'] + digits.subrange(20, 32)
}

/// What `base64`'s `URL_SAFE_NO_PAD` engine makes of `bytes`.
pub uninterp spec fn base64_url_text(bytes: Seq<u8>) -> Seq<char>;

/// The SHA-256 digest of `data`, as `ring` computes it.
pub uninterp spec fn sha256_digest(data: Seq<u8>) -> Seq<u8>;

/// The last character that the encoding of sixteen bytes has: the two low bits of the
/// last byte go into it, in front of four zero bits.
pub open spec fn last_base64_char(last: u8) -> char {
    if last % 4 == 0 {
        'A'
    } else if last % 4 == 1 {
        'Q'
    } else if last % 4 == 2 {
        'g'
    } else {
        'w'
    }
}

/// A lower-case letter or a digit.
pub open spec fn is_short_id_char(c: char) -> bool {
    ('a' <= c && c <= 'z') || ('0' <= c && c <= '9')
}

/// The lower-case form of an ASCII capital letter; every other character as it is.
pub open spec fn ascii_lower(c: char) -> char {
    if 'A' <= c && c <= 'Z' {
        ((c as u8) + 32) as char
    } else {
        c
    }
}

/// Whether the short identifier keeps `c`: padding, hyphens and underscores are dropped.
pub open spec fn kept_in_short_id(c: char) -> bool {
    c != '=' && c != '-' && c != '_'
}

/// `encoded` without padding, hyphens and underscores, in lower case.
pub open spec fn compact(encoded: Seq<char>) -> Seq<char> {
    encoded.filter(|c: char| kept_in_short_id(c)).map_values(|c: char| ascii_lower(c))
}

/// The short identifier that belongs to `id`.
pub open spec fn short_id_of(id: Seq<u8>) -> Seq<char> {
    compact(base64_url_text(id))
}

/// The signing key that belongs to `id`: the hexadecimal SHA-256 digest of its hyphenated
/// form followed by the salt.
pub open spec fn secret_key_of(id: Seq<u8>) -> Seq<char> {
    hex_lower(sha256_digest(vstd::utf8::encode_utf8(uuid_text(id) + key_salt())))
}

/// A fresh random identifier from `uuid::Uuid::new_v4`, as its sixteen bytes. Nothing is
/// promised of the value. `new_v4` stops the program where the operating system hands out
/// no random bytes.
#[verifier::external_body]
pub(crate) fn random_id() -> [u8; 16] {
    uuid::Uuid::new_v4().into_bytes()
}

/// `uuid::Uuid::from_bytes(..).to_string()`: the identifier in hyphenated lower-case
/// hexadecimal, as the crate's `Display` writes it.
#[verifier::external_body]
pub(crate) fn hyphenated(id: &[u8; 16]) -> (text: String)
    ensures
        text@ == uuid_text(id@),
{
    uuid::Uuid::from_bytes(*id).to_string()
}

/// `Engine::encode` of `base64::engine::general_purpose::URL_SAFE_NO_PAD`. The result is a
/// function of the bytes alone, named `base64_url_text`. Every character of it comes from
/// the URL-safe alphabet. Sixteen bytes give twenty-two characters, five groups of four and
/// two for the byte that is left; the last of them is the alphabet's character at the low
/// two bits of that byte times sixteen.
#[verifier::external_body]
fn base64_url(bytes: &[u8; 16]) -> (text: String)
    ensures
        text@ == base64_url_text(bytes@),
        forall|i: int| 0 <= i < text@.len() ==> is_base64_url_char(#[trigger] text@[i]),
        text@.len() == 22,
        text@[21] == last_base64_char(bytes@[15]),
{
    base64::Engine::encode(&base64::engine::general_purpose::URL_SAFE_NO_PAD, bytes)
}

/// `ring::digest::digest` with `SHA256`, which stops the program where the length of the
/// data in bits does not fit in 64 bits. The result is a function of the data alone, named
/// `sha256_digest`, and is thirty-two bytes long.
#[verifier::external_body]
fn sha256(data: &[u8]) -> (digest: Vec<u8>)
    requires
        data@.len() < 0x2000_0000_0000_0000,
    ensures
        digest@ == sha256_digest(data@),
        digest@.len() == 32,
{
    ring::digest::digest(&ring::digest::SHA256, data).as_ref().to_vec()
}

fn to_ascii_lower(c: char) -> (r: char)
    ensures
        r == ascii_lower(c),
{
    if 'A' <= c && c <= 'Z' {
        let b: u8 = c as u8;
        (b + 32) as char
    } else {
        c
    }
}

/// Derives the short identifier of `id`: one to twenty-two lower-case letters and digits.
pub fn uuid_to_short_id(id: &[u8; 16]) -> (short_id: String)
    ensures
        short_id@ == short_id_of(id@),
        forall|i: int| 0 <= i < short_id@.len() ==> is_short_id_char(#[trigger] short_id@[i]),
        1 <= short_id@.len() <= 22,
{
    let encoded = base64_url(id);
    let chars = crate::text::chars_of(encoded.as_str());
    let ghost keep = |c: char| kept_in_short_id(c);
    let ghost lower = |c: char| ascii_lower(c);
    let mut out = String::new();
    let mut i: usize = 0;
    proof {
        reveal(Seq::filter);
        assert(chars@.take(0).filter(keep) =~= Seq::<char>::empty());
    }
    while i < chars.len()
        invariant
            i <= chars.len(),
            chars@.len() == 22,
            kept_in_short_id(chars@[21]),
            keep == |c: char| kept_in_short_id(c),
            lower == |c: char| ascii_lower(c),
            forall|k: int| 0 <= k < chars@.len() ==> is_base64_url_char(#[trigger] chars@[k]),
            out@ == chars@.take(i as int).filter(keep).map_values(lower),
            forall|k: int| 0 <= k < out@.len() ==> is_short_id_char(#[trigger] out@[k]),
        decreases chars.len() - i,
    {
        let c = chars[i];
        proof {
            reveal(Seq::filter);
            assert(chars@.take(i + 1).drop_last() =~= chars@.take(i as int));
            assert(chars@.take(i + 1).last() == c);
        }
        if c != '=' && c != '-' && c != '_' {
            out.push(to_ascii_lower(c));
            proof {
                let kept = chars@.take(i as int).filter(keep);
                assert(kept.push(c).map_values(lower) =~= kept.map_values(lower).push(
                    ascii_lower(c),
                ));
                assert(is_base64_url_char(chars@[i as int]));
            }
        }
        i += 1;
    }
    proof {
        assert(chars@.take(chars@.len() as int) =~= chars@);
        chars@.lemma_filter_len(keep);
        assert(keep(chars@[21]));
        chars@.lemma_filter_contains(keep, 21);
    }
    out
}

/// Two values below sixteen with the same hexadecimal digit are the same.
proof fn lemma_hex_digit_is_injective(x: int, y: int)
    requires
        0 <= x < 16,
        0 <= y < 16,
        crate::text::hex_digit(x) == crate::text::hex_digit(y),
    ensures
        x == y,
{
    assert(crate::text::hex_digit(x) as int == if x < 10 { x + 48 } else { x + 87 });
    assert(crate::text::hex_digit(y) as int == if y < 10 { y + 48 } else { y + 87 });
}

/// Two identifiers with the same hyphenated form are the same.
pub proof fn lemma_uuid_text_is_injective(a: Seq<u8>, b: Seq<u8>)
    requires
        a.len() == 16,
        b.len() == 16,
        uuid_text(a) == uuid_text(b),
    ensures
        a == b,
{
    let da = hex_lower(a);
    let db = hex_lower(b);
    assert forall|k: int| 0 <= k < 32 implies da[k] == db[k] by {
        let j = k + (if k < 8 {
            0int
        } else if k < 12 {
            1int
        } else if k < 16 {
            2int
        } else if k < 20 {
            3int
        } else {
            4int
        });
        assert(uuid_text(a)[j] == da[k]);
        assert(uuid_text(b)[j] == db[k]);
    }
    assert forall|i: int| 0 <= i < 16 implies a[i] == b[i] by {
        let x = a[i] as int;
        let y = b[i] as int;
        assert(da[2 * i] == db[2 * i]);
        assert(da[2 * i + 1] == db[2 * i + 1]);
        assert((2 * i) / 2 == i && (2 * i + 1) / 2 == i && (2 * i) % 2 == 0 && (2 * i + 1) % 2
            == 1);
        lemma_hex_digit_is_injective(x / 16, y / 16);
        lemma_hex_digit_is_injective(x % 16, y % 16);
    }
    assert(a =~= b);
}

/// What is hashed for the signing key is forty-three characters of ASCII.
proof fn lemma_key_input_is_ascii(id: Seq<u8>)
    requires
        id.len() == 16,
    ensures
        (uuid_text(id) + key_salt()).len() == 43,
        vstd::utf8::is_ascii_chars(uuid_text(id) + key_salt()),
{
    reveal_strlit("BitSink");
    let digits = hex_lower(id);
    assert forall|i: int| 0 <= i < digits.len() implies '\0' <= #[trigger] digits[i]
        <= '\u{7f}' by {
        let b = id[i / 2] as int;
        assert(0 <= b / 16 < 16 && 0 <= b % 16 < 16);
    }
    let input = uuid_text(id) + key_salt();
    assert forall|i: int| 0 <= i < input.len() implies '\0' <= #[trigger] input[i]
        <= '\u{7f}' by {
        if i < 8 {
            assert(input[i] == digits[i]);
        } else if i == 8 || i == 13 || i == 18 || i == 23 {
            assert(input[i] == '-');
        } else if i < 13 {
            assert(input[i] == digits[i - 1]);
        } else if i < 18 {
            assert(input[i] == digits[i - 2]);
        } else if i < 23 {
            assert(input[i] == digits[i - 3]);
        } else if i < 36 {
            assert(input[i] == digits[i - 4]);
        } else {
            assert(input[i] == key_salt()[i - 36]);
        }
    }
}

/// Derives the signing key of `id`: sixty-four hexadecimal digits.
pub fn generate_secret_key(id: &[u8; 16]) -> (key: String)
    ensures
        key@ == secret_key_of(id@),
        key@.len() == 64,
{
    let mut text = hyphenated(id);
    text.append("BitSink");
    proof {
        lemma_key_input_is_ascii(id@);
        vstd::utf8::is_ascii_chars_encode_utf8(text@);
    }
    let digest = sha256(text.as_str().as_bytes());
    to_hex_lower(&digest)
}

} // verus!
