//! Unpadded base64url, as used for keys, digests and JWT segments.
use vstd::prelude::*;
use base64::engine::general_purpose::URL_SAFE_NO_PAD;
use base64::Engine;

verus! {

/// Why a text is not base64url, as reported by the decoder.
#[verifier::external_type_specification]
#[verifier::external_body]
pub struct ExDecodeError(base64::DecodeError);

/// What a `DecodeError` of `base64` is shown as.
pub uninterp spec fn decode_error_text(e: base64::DecodeError) -> Seq<char>;

/// What the decoder of `base64` says of a text that it refuses.
pub uninterp spec fn decode_refusal(s: Seq<char>) -> Seq<char>;

/// The symbol that stands for six bits.
pub open spec fn symbol(v: int) -> char {
    if v < 26 {
        (0x41 + v) as char
    } else if v < 52 {
        (0x61 + (v - 26)) as char
    } else if v < 62 {
        (0x30 + (v - 52)) as char
    } else if v == 62 {
        '-'
    } else {
        '_'
    }
}

/// The character is one of the sixty-four symbols.
pub open spec fn is_symbol(c: char) -> bool {
    'A' <= c <= 'Z' || 'a' <= c <= 'z' || '0' <= c <= '9' || c == '-' || c == '_'
}

/// Bytes in base64url without padding: each three bytes give four symbols of
/// six bits each; one or two bytes left over give two or three symbols, the
/// last one filled up with zero bits.
pub open spec fn b64url(bytes: Seq<u8>) -> Seq<char>
    decreases bytes.len(),
{
    if bytes.len() == 0 {
        Seq::empty()
    } else if bytes.len() == 1 {
        seq![symbol(bytes[0] as int / 4), symbol((bytes[0] as int % 4) * 16)]
    } else if bytes.len() == 2 {
        seq![
            symbol(bytes[0] as int / 4),
            symbol((bytes[0] as int % 4) * 16 + bytes[1] as int / 16),
            symbol((bytes[1] as int % 16) * 4),
        ]
    } else {
        seq![
            symbol(bytes[0] as int / 4),
            symbol((bytes[0] as int % 4) * 16 + bytes[1] as int / 16),
            symbol((bytes[1] as int % 16) * 4 + bytes[2] as int / 64),
            symbol(bytes[2] as int % 64),
        ] + b64url(bytes.skip(3))
    }
}

/// The text is the encoding of some bytes.
pub open spec fn is_b64url(s: Seq<char>) -> bool {
    exists|bytes: Seq<u8>| #[trigger] b64url(bytes) == s
}

/// `base64`'s `Engine::encode` with `URL_SAFE_NO_PAD`: the bytes in base64url,
/// without padding.
#[verifier::external_body]
pub(crate) fn encode(bytes: &[u8]) -> (s: String)
    ensures
        s@ == b64url(bytes@),
{
    URL_SAFE_NO_PAD.encode(bytes)
}

/// `base64`'s `Engine::decode` with `URL_SAFE_NO_PAD`: the bytes whose encoding
/// the text is. The decoder takes no padding and no stray bits in the last
/// symbol, so it refuses every text that is not the encoding of some bytes.
/// What it says of such a text depends on the text alone.
#[verifier::external_body]
pub(crate) fn decode(s: &str) -> (r: Result<Vec<u8>, base64::DecodeError>)
    ensures
        match r {
            Ok(bytes) => b64url(bytes@) == s@,
            Err(e) => !is_b64url(s@) && decode_error_text(e) == decode_refusal(s@),
        },
{
    URL_SAFE_NO_PAD.decode(s)
}

/// The `Display` form of `base64`'s `DecodeError`, which depends on the error
/// alone.
#[verifier::external_body]
pub(crate) fn error_text(e: &base64::DecodeError) -> (s: String)
    ensures
        s@ == decode_error_text(*e),
{
    e.to_string()
}

/// No two values below sixty-four share a symbol.
proof fn lemma_symbol(v: int, w: int)
    requires
        0 <= v < 64,
        0 <= w < 64,
    ensures
        symbol(v) == symbol(w) ==> v == w,
{
}

/// How long an encoding is.
pub proof fn law_b64url_len(bytes: Seq<u8>)
    ensures
        b64url(bytes).len() == (4 * bytes.len() + 2) / 3,
    decreases bytes.len(),
{
    if bytes.len() > 2 {
        law_b64url_len(bytes.skip(3));
    }
}

/// An encoding holds letters, digits, hyphens and underscores only.
pub proof fn law_b64url_is_symbols(bytes: Seq<u8>)
    ensures
        forall|i: int| 0 <= i < b64url(bytes).len() ==> is_symbol(#[trigger] b64url(bytes)[i]),
    decreases bytes.len(),
{
    let s = b64url(bytes);
    if bytes.len() > 2 {
        law_b64url_is_symbols(bytes.skip(3));
        assert forall|i: int| 0 <= i < s.len() implies is_symbol(#[trigger] s[i]) by {
            if i >= 4 {
                assert(s[i] == b64url(bytes.skip(3))[i - 4]);
            }
        }
    }
}

/// An encoding holds no dot, so it can be joined with dots and split again.
pub proof fn law_b64url_has_no_dot(bytes: Seq<u8>)
    ensures
        !b64url(bytes).contains('.'),
{
    law_b64url_is_symbols(bytes);
}

/// Different bytes have different encodings: decoding gives back what was
/// encoded.
pub proof fn law_b64url_injective(a: Seq<u8>, b: Seq<u8>)
    requires
        b64url(a) == b64url(b),
    ensures
        a == b,
    decreases a.len(),
{
    let s = b64url(a);
    law_b64url_len(a);
    law_b64url_len(b);
    assert(a.len() == b.len());
    if a.len() == 0 {
        assert(a =~= b);
    } else if a.len() == 1 {
        lemma_symbol(a[0] as int / 4, b[0] as int / 4);
        lemma_symbol((a[0] as int % 4) * 16, (b[0] as int % 4) * 16);
        assert(s[0] == symbol(b[0] as int / 4));
        assert(s[1] == symbol((b[0] as int % 4) * 16));
        assert(a =~= b);
    } else {
        let a0 = a[0] as int;
        let a1 = a[1] as int;
        let b0 = b[0] as int;
        let b1 = b[1] as int;
        assert(s[0] == symbol(a0 / 4) && s[0] == symbol(b0 / 4));
        assert(s[1] == symbol((a0 % 4) * 16 + a1 / 16) && s[1] == symbol((b0 % 4) * 16 + b1 / 16));
        lemma_symbol(a0 / 4, b0 / 4);
        lemma_symbol((a0 % 4) * 16 + a1 / 16, (b0 % 4) * 16 + b1 / 16);
        assert(a0 == b0);
        if a.len() == 2 {
            assert(s[2] == symbol((a1 % 16) * 4) && s[2] == symbol((b1 % 16) * 4));
            lemma_symbol((a1 % 16) * 4, (b1 % 16) * 4);
            assert(a =~= b);
        } else {
            let a2 = a[2] as int;
            let b2 = b[2] as int;
            assert(s[2] == symbol((a1 % 16) * 4 + a2 / 64) && s[2] == symbol(
                (b1 % 16) * 4 + b2 / 64,
            ));
            assert(s[3] == symbol(a2 % 64) && s[3] == symbol(b2 % 64));
            lemma_symbol((a1 % 16) * 4 + a2 / 64, (b1 % 16) * 4 + b2 / 64);
            lemma_symbol(a2 % 64, b2 % 64);
            assert(a1 == b1 && a2 == b2);
            assert(s.skip(4) =~= b64url(a.skip(3)));
            assert(s.skip(4) =~= b64url(b.skip(3)));
            law_b64url_injective(a.skip(3), b.skip(3));
            assert forall|i: int| 0 <= i < a.len() implies a[i] == b[i] by {
                if i >= 3 {
                    assert(a[i] == a.skip(3)[i - 3]);
                    assert(b[i] == b.skip(3)[i - 3]);
                }
            }
            assert(a =~= b);
        }
    }
}

} // verus!
