use vstd::prelude::*;
use crate::score::is_word;
use crate::words::{ascii_upper, is_ascii_text, lemma_word_upper_fixed, to_upper, upper_of};

verus! {

/// What `base64::encode_config` with the URL-safe alphabet and no padding
/// returns for the UTF-8 bytes of a text.
pub uninterp spec fn b64_encoded(s: Seq<char>) -> Seq<char>;

/// The bytes that `base64::decode_config` (URL-safe alphabet) returns for a
/// text; `None` where decoding fails.
pub uninterp spec fn b64_decoded(s: Seq<char>) -> Option<Seq<u8>>;

/// What `String::from_utf8_lossy` makes of a byte sequence.
pub uninterp spec fn lossy_text(b: Seq<u8>) -> Seq<char>;

/// A character of the URL-safe base64 alphabet: `A`..`Z`, `a`..`z`,
/// `0`..`9`, `-` and `_`.
pub open spec fn is_url_safe_char(c: char) -> bool {
    ('A' <= c && c <= 'Z') || ('a' <= c && c <= 'z') || ('0' <= c && c <= '9') || c == '-' || c
        == '_'
}

/// A text made of URL-safe base64 characters only.
pub open spec fn is_url_safe(s: Seq<char>) -> bool {
    forall|i: int| 0 <= i < s.len() ==> is_url_safe_char(#[trigger] s[i])
}

#[verifier::external_type_specification]
#[verifier::external_body]
pub struct ExDecodeError(base64::DecodeError);

/// Relies on `base64::encode_config(_, URL_SAFE_NO_PAD)`: the encoding
/// depends on the text alone, and uses only the URL-safe alphabet (no
/// padding).
#[verifier::external_body]
fn b64_encode(s: &String) -> (r: String)
    ensures
        r@ == b64_encoded(s@),
        is_url_safe(r@),
{
    base64::encode_config(s, base64::URL_SAFE_NO_PAD)
}

/// Relies on `base64::decode_config(_, URL_SAFE_NO_PAD)`: the outcome
/// depends on the text alone, and decoding what `encode_config` produced for
/// a text gives back that text's UTF-8 bytes (which `from_utf8_lossy` reads
/// back unchanged).
#[verifier::external_body]
fn b64_decode(s: &String) -> (r: Result<Vec<u8>, base64::DecodeError>)
    ensures
        r is Ok <==> b64_decoded(s@) is Some,
        r is Ok ==> r->Ok_0@ == b64_decoded(s@)->0,
        forall|t: Seq<char>|
            #[trigger] b64_encoded(t) == s@ ==> (r is Ok && lossy_text(r->Ok_0@) == t),
{
    base64::decode_config(s, base64::URL_SAFE_NO_PAD)
}

/// Relies on `String::from_utf8_lossy`: the text depends on the bytes alone.
#[verifier::external_body]
fn utf8_lossy(b: &Vec<u8>) -> (r: String)
    ensures
        r@ == lossy_text(b@),
{
    String::from_utf8_lossy(b).into_owned()
}

/// The number of encoding rounds that a shared word goes through.
pub const ROUNDS: usize = 5;

/// `s` encoded `n` times.
pub open spec fn encode_rounds(s: Seq<char>, n: nat) -> Seq<char>
    decreases n,
{
    if n == 0 {
        s
    } else {
        b64_encoded(encode_rounds(s, (n - 1) as nat))
    }
}

/// `s` decoded `n` times; `None` where a round fails.
pub open spec fn decode_rounds(s: Seq<char>, n: nat) -> Option<Seq<char>>
    decreases n,
{
    if n == 0 {
        Some(s)
    } else {
        match b64_decoded(s) {
            Some(b) => decode_rounds(lossy_text(b), (n - 1) as nat),
            None => None,
        }
    }
}

/// Why a shared word could not be read back.
#[derive(Debug, Clone, Copy, PartialEq, Eq, Structural)]
pub enum CodecError {
    /// The text is not a valid encoding.
    InvalidEncoding,
}

/// Hides a word for a shareable link: raised to uppercase, then encoded
/// with URL-safe base64 (no padding) five times over.
pub fn encode(s: String) -> (r: String)
    ensures
        r@ == encode_rounds(upper_of(s@), ROUNDS as nat),
        is_ascii_text(s@) ==> r@ == encode_rounds(ascii_upper(s@), ROUNDS as nat),
        is_word(s@) ==> r@ == encode_rounds(s@, ROUNDS as nat),
        is_url_safe(r@),
{
    proof {
        if is_word(s@) {
            lemma_word_upper_fixed(s@);
        }
    }
    let mut out = to_upper(s.as_str());
    let ghost start = out@;
    let mut k: usize = 0;
    while k < ROUNDS
        invariant
            k <= ROUNDS,
            start == upper_of(s@),
            is_ascii_text(s@) ==> start == ascii_upper(s@),
            out@ == encode_rounds(start, k as nat),
            k > 0 ==> is_url_safe(out@),
        decreases ROUNDS - k,
    {
        out = b64_encode(&out);
        k = k + 1;
    }
    out
}

/// Reads back a word hidden by `encode`: five rounds of URL-safe base64
/// decoding, then raised to uppercase. Fails where a round does not decode.
pub fn decode(s: String) -> (r: Result<String, CodecError>)
    ensures
        r is Ok <==> decode_rounds(s@, ROUNDS as nat) is Some,
        r is Ok ==> r->Ok_0@ == upper_of(decode_rounds(s@, ROUNDS as nat)->0),
        r is Ok && is_ascii_text(decode_rounds(s@, ROUNDS as nat)->0) ==> r->Ok_0@ == ascii_upper(
            decode_rounds(s@, ROUNDS as nat)->0,
        ),
        r is Err ==> r == Err::<String, CodecError>(CodecError::InvalidEncoding),
        forall|w: Seq<char>|
            is_word(w) && #[trigger] encode_rounds(w, ROUNDS as nat) == s@ ==> (r is Ok
                && r->Ok_0@ == w),
{
    let mut out = s;
    let mut k: usize = 0;
    while k < ROUNDS
        invariant
            k <= ROUNDS,
            decode_rounds(s@, ROUNDS as nat) == decode_rounds(out@, (ROUNDS - k) as nat),
            forall|w: Seq<char>|
                is_word(w) && #[trigger] encode_rounds(w, ROUNDS as nat) == s@ ==> out@
                    == encode_rounds(w, (ROUNDS - k) as nat),
        decreases ROUNDS - k,
    {
        let next = b64_decode(&out);
        proof {
            assert forall|w: Seq<char>|
                is_word(w) && #[trigger] encode_rounds(w, ROUNDS as nat) == s@ implies (next is Ok
                && lossy_text(next->Ok_0@) == encode_rounds(w, (ROUNDS - k - 1) as nat)) by {
                assert(out@ == b64_encoded(encode_rounds(w, (ROUNDS - k - 1) as nat)));
            }
        }
        match next {
            Ok(b) => {
                out = utf8_lossy(&b);
            },
            Err(_) => {
                return Err(CodecError::InvalidEncoding);
            },
        }
        k = k + 1;
    }
    let u = to_upper(out.as_str());
    proof {
        assert forall|w: Seq<char>|
            is_word(w) && #[trigger] encode_rounds(w, ROUNDS as nat) == s@ implies u@ == w by {
            lemma_word_upper_fixed(w);
        }
    }
    Ok(u)
}

} // verus!
