//! Percent-encoding of query components.
use vstd::prelude::*;
use vstd::utf8;

verus! {

/// Bytes that stand for themselves: the unreserved characters of a URL.
pub open spec fn is_unreserved(b: u8) -> bool {
    ||| 0x41 <= b <= 0x5a
    ||| 0x61 <= b <= 0x7a
    ||| 0x30 <= b <= 0x39
    ||| b == 0x2d
    ||| b == 0x5f
    ||| b == 0x2e
    ||| b == 0x7e
}

/// The upper-case hexadecimal digit of a value below sixteen.
pub open spec fn hex_upper(d: u8) -> char {
    if d < 10 {
        ((0x30 + d) as u8) as char
    } else {
        ((0x37 + d) as u8) as char
    }
}

/// What one byte is written as.
pub open spec fn encoded_byte(b: u8) -> Seq<char> {
    if is_unreserved(b) {
        seq![b as char]
    } else {
        seq!['%', hex_upper(b / 16), hex_upper(b % 16)]
    }
}

/// What a sequence of bytes is written as.
pub open spec fn encoded_bytes(bytes: Seq<u8>) -> Seq<char>
    decreases bytes.len(),
{
    if bytes.len() == 0 {
        Seq::empty()
    } else {
        encoded_byte(bytes[0]) + encoded_bytes(bytes.drop_first())
    }
}

/// A text, percent-encoded byte by byte.
pub open spec fn url_encoded(s: Seq<char>) -> Seq<char> {
    encoded_bytes(utf8::encode_utf8(s))
}

/// The value of a hexadecimal digit, in either case.
pub open spec fn hex_value(b: u8) -> Option<u8> {
    if 0x30 <= b <= 0x39 {
        Some((b - 0x30) as u8)
    } else if 0x41 <= b <= 0x46 {
        Some((b - 0x37) as u8)
    } else if 0x61 <= b <= 0x66 {
        Some((b - 0x57) as u8)
    } else {
        None
    }
}

/// The number that two bytes spell in base sixteen. A plus sign may stand in
/// front of a single digit.
pub open spec fn pair_value(hi: u8, lo: u8) -> Option<u8> {
    match (hex_value(hi), hex_value(lo)) {
        (Some(h), Some(l)) => Some((16 * h + l) as u8),
        (None, Some(l)) => if hi == 0x2b {
            Some(l)
        } else {
            None
        },
        _ => None,
    }
}

/// What a sequence of bytes decodes to: `%` and two digits give a byte, `+`
/// gives a space, everything else stands for itself.
pub open spec fn decoded_bytes(bytes: Seq<u8>) -> Seq<u8>
    decreases bytes.len(),
{
    if bytes.len() == 0 {
        Seq::empty()
    } else if bytes[0] == 0x25 && bytes.len() > 2 && pair_value(bytes[1], bytes[2]) is Some {
        seq![pair_value(bytes[1], bytes[2])->0] + decoded_bytes(bytes.skip(3))
    } else if bytes[0] == 0x2b {
        seq![0x20u8] + decoded_bytes(bytes.drop_first())
    } else {
        seq![bytes[0]] + decoded_bytes(bytes.drop_first())
    }
}

/// What `String::from_utf8_lossy` makes of bytes that are not UTF-8.
pub uninterp spec fn utf8_repaired(bytes: Seq<u8>) -> Seq<char>;

/// Bytes read as UTF-8, with replacement characters where they are not.
pub open spec fn utf8_lossy(bytes: Seq<u8>) -> Seq<char> {
    if utf8::valid_utf8(bytes) {
        utf8::decode_utf8(bytes)
    } else {
        utf8_repaired(bytes)
    }
}

/// A percent-encoded text, decoded.
pub open spec fn url_decoded(s: Seq<char>) -> Seq<char> {
    utf8_lossy(decoded_bytes(utf8::encode_utf8(s)))
}

/// The two bytes after each `%` do not end in the middle of a character.
pub open spec fn escapes_aligned(s: Seq<char>) -> bool {
    let bytes = utf8::encode_utf8(s);
    forall|i: int|
        #![trigger bytes[i]]
        0 <= i && i + 2 < bytes.len() && bytes[i] == 0x25 ==> utf8::is_char_boundary(bytes, i + 3)
}

/// `std`'s `String::from_utf8_lossy`: bytes that are UTF-8 are decoded as such.
/// For others the result is named, and depends on the bytes alone.
#[verifier::external_body]
pub(crate) fn from_utf8_lossy(bytes: &Vec<u8>) -> (s: String)
    ensures
        utf8::valid_utf8(bytes@) ==> s@ == utf8::decode_utf8(bytes@),
        !utf8::valid_utf8(bytes@) ==> s@ == utf8_repaired(bytes@),
{
    String::from_utf8_lossy(bytes).into_owned()
}

fn hex_digit(d: u8) -> (c: char)
    requires
        d < 16,
    ensures
        c == hex_upper(d),
{
    if d < 10 {
        (0x30 + d) as char
    } else {
        (0x37 + d) as char
    }
}

/// Percent-encode everything but the unreserved characters.
pub fn urlenc(s: &str) -> (r: String)
    ensures
        r@ == url_encoded(s@),
{
    let bytes = s.as_bytes();
    let mut r = String::new();
    let mut i: usize = 0;
    assert(bytes@.skip(0) =~= bytes@);
    while i < bytes.len()
        invariant
            i <= bytes@.len(),
            encoded_bytes(bytes@) == r@ + encoded_bytes(bytes@.skip(i as int)),
        decreases bytes@.len() - i,
    {
        let b: u8 = bytes[i];
        let ghost done = r@;
        let ghost rest = encoded_bytes(bytes@.skip(i + 1));
        assert(bytes@.skip(i as int).drop_first() =~= bytes@.skip(i + 1));
        if (0x41 <= b && b <= 0x5a) || (0x61 <= b && b <= 0x7a) || (0x30 <= b && b <= 0x39) || b
            == 0x2d || b == 0x5f || b == 0x2e || b == 0x7e {
            r.push(b as char);
        } else {
            r.push('%');
            r.push(hex_digit(b / 16));
            r.push(hex_digit(b % 16));
        }
        assert(r@ =~= done + encoded_byte(b));
        assert(done + (encoded_byte(b) + rest) =~= r@ + rest);
        i += 1;
    }
    assert(r@ + encoded_bytes(bytes@.skip(i as int)) =~= r@);
    r
}

fn digit_value(b: u8) -> (v: Option<u8>)
    ensures
        v == hex_value(b),
        v matches Some(d) ==> d < 16,
{
    if 0x30 <= b && b <= 0x39 {
        Some(b - 0x30)
    } else if 0x41 <= b && b <= 0x46 {
        Some(b - 0x37)
    } else if 0x61 <= b && b <= 0x66 {
        Some(b - 0x57)
    } else {
        None
    }
}

fn escape_value(hi: u8, lo: u8) -> (v: Option<u8>)
    ensures
        v == pair_value(hi, lo),
{
    match (digit_value(hi), digit_value(lo)) {
        (Some(h), Some(l)) => Some(16 * h + l),
        (None, Some(l)) => if hi == 0x2b {
            Some(l)
        } else {
            None
        },
        _ => None,
    }
}

/// Whether `urldec` can take this text: no `%` is followed by two bytes that
/// end in the middle of a character.
pub fn can_urldec(s: &str) -> (r: bool)
    ensures
        r == escapes_aligned(s@),
{
    let bytes = s.as_bytes();
    let n: usize = bytes.len();
    let ghost enc = utf8::encode_utf8(s@);
    proof {
        utf8::encode_utf8_valid_utf8(s@);
    }
    let mut i: usize = 0;
    while n - i > 2
        invariant
            n == bytes@.len(),
            i <= n,
            bytes@ == enc,
            enc == utf8::encode_utf8(s@),
            utf8::valid_utf8(enc),
            forall|k: int|
                #![trigger enc[k]]
                0 <= k < i && k + 2 < n && enc[k] == 0x25 ==> utf8::is_char_boundary(enc, k + 3),
        decreases n - i,
    {
        if bytes[i] == 0x25 {
            if i + 3 < n {
                let after: u8 = bytes[i + 3];
                proof {
                    utf8::is_char_boundary_iff_not_is_continuation_byte(enc, i + 3);
                }
                if 0x80 <= after && after <= 0xbf {
                    assert(enc[i as int] == 0x25);
                    return false;
                }
            } else {
                proof {
                    utf8::is_char_boundary_start_end_of_seq(enc);
                }
            }
        }
        i += 1;
    }
    true
}

/// Decode `%XX` escapes, and `+` as a space.
pub fn urldec(s: &str) -> (r: String)
    requires
        escapes_aligned(s@),
    ensures
        r@ == url_decoded(s@),
{
    let bytes = s.as_bytes();
    let n: usize = bytes.len();
    let mut out: Vec<u8> = Vec::new();
    let mut i: usize = 0;
    assert(bytes@.skip(0) =~= bytes@);
    while i < n
        invariant
            n == bytes@.len(),
            i <= n,
            decoded_bytes(bytes@) == out@ + decoded_bytes(bytes@.skip(i as int)),
        decreases n - i,
    {
        let b: u8 = bytes[i];
        let ghost done = out@;
        let ghost here = bytes@.skip(i as int);
        assert(here.drop_first() =~= bytes@.skip(i + 1));
        let escape: Option<u8> = if b == 0x25 && n - i > 2 {
            escape_value(bytes[i + 1], bytes[i + 2])
        } else {
            None
        };
        if let Some(h) = escape {
            assert(here.skip(3) =~= bytes@.skip(i + 3));
            out.push(h);
            assert(done + (seq![h] + decoded_bytes(here.skip(3))) =~= out@ + decoded_bytes(
                bytes@.skip(i + 3),
            ));
            i += 3;
        } else {
            let c: u8 = if b == 0x2b {
                0x20
            } else {
                b
            };
            out.push(c);
            assert(done + (seq![c] + decoded_bytes(bytes@.skip(i + 1))) =~= out@ + decoded_bytes(
                bytes@.skip(i + 1),
            ));
            i += 1;
        }
    }
    assert(out@ + decoded_bytes(bytes@.skip(i as int)) =~= out@);
    from_utf8_lossy(&out)
}

/// Characters as bytes, for text that is ASCII.
spec fn ascii_bytes(s: Seq<char>) -> Seq<u8> {
    s.map_values(|c: char| c as u8)
}

proof fn lemma_encoded_is_ascii(bytes: Seq<u8>)
    ensures
        utf8::is_ascii_chars(encoded_bytes(bytes)),
    decreases bytes.len(),
{
    if bytes.len() > 0 {
        lemma_encoded_is_ascii(bytes.drop_first());
    }
}

proof fn lemma_decode_encoded(bytes: Seq<u8>)
    ensures
        decoded_bytes(ascii_bytes(encoded_bytes(bytes))) == bytes,
    decreases bytes.len(),
{
    let coded = ascii_bytes(encoded_bytes(bytes));
    if bytes.len() == 0 {
        assert(coded =~= Seq::empty());
        assert(bytes =~= Seq::empty());
    } else {
        let b = bytes[0];
        let rest = bytes.drop_first();
        lemma_decode_encoded(rest);
        let head = encoded_byte(b);
        let tail = ascii_bytes(encoded_bytes(rest));
        assert(coded =~= ascii_bytes(head) + tail);
        assert(seq![b] + rest =~= bytes);
        if is_unreserved(b) {
            assert(coded[0] == b);
            assert(coded.drop_first() =~= tail);
        } else {
            assert(coded[0] == 0x25);
            assert(coded[1] == ascii_bytes(head)[1]);
            assert(coded[2] == ascii_bytes(head)[2]);
            assert(pair_value(coded[1], coded[2]) == Some(b));
            assert(coded.skip(3) =~= tail);
        }
    }
}

/// A character that stands for itself, or starts an escape.
pub open spec fn is_plain(c: char) -> bool {
    c == '%' || '\0' <= c <= '\u{7f}' && is_unreserved(c as u8)
}

proof fn lemma_encoded_is_plain(bytes: Seq<u8>)
    ensures
        forall|i: int|
            0 <= i < encoded_bytes(bytes).len() ==> is_plain(#[trigger] encoded_bytes(bytes)[i]),
    decreases bytes.len(),
{
    if bytes.len() > 0 {
        let s = encoded_bytes(bytes);
        let head = encoded_byte(bytes[0]);
        let rest = encoded_bytes(bytes.drop_first());
        lemma_encoded_is_plain(bytes.drop_first());
        assert forall|i: int| 0 <= i < s.len() implies is_plain(#[trigger] s[i]) by {
            if i < head.len() {
                assert(s[i] == head[i]);
            } else {
                assert(s[i] == rest[i - head.len()]);
            }
        }
    }
}

/// What encoding writes holds nothing that has a meaning in a query: no
/// ampersand, equals sign, question mark, plus sign, slash or space.
pub proof fn law_encoded_is_plain(s: Seq<char>)
    ensures
        forall|i: int|
            0 <= i < url_encoded(s).len() ==> is_plain(#[trigger] url_encoded(s)[i]),
{
    lemma_encoded_is_plain(utf8::encode_utf8(s));
}

proof fn lemma_unreserved_bytes(bytes: Seq<u8>)
    requires
        forall|i: int| 0 <= i < bytes.len() ==> is_unreserved(#[trigger] bytes[i]),
    ensures
        encoded_bytes(bytes) == bytes.map_values(|b: u8| b as char),
    decreases bytes.len(),
{
    let chars = bytes.map_values(|b: u8| b as char);
    if bytes.len() > 0 {
        let rest = bytes.drop_first();
        assert forall|i: int| 0 <= i < rest.len() implies is_unreserved(#[trigger] rest[i]) by {
            assert(rest[i] == bytes[i + 1]);
        }
        lemma_unreserved_bytes(rest);
        assert(chars =~= seq![bytes[0] as char] + rest.map_values(|b: u8| b as char));
    } else {
        assert(chars =~= Seq::empty());
    }
}

/// A text of unreserved characters is its own encoding.
pub proof fn law_unreserved_is_kept(s: Seq<char>)
    requires
        forall|i: int| 0 <= i < s.len() ==> is_plain(#[trigger] s[i]) && s[i] != '%',
    ensures
        url_encoded(s) == s,
{
    assert forall|i: int| 0 <= i < s.len() implies '\0' <= #[trigger] s[i] <= '\u{7f}' by {
        assert(is_plain(s[i]));
    }
    utf8::is_ascii_chars_encode_utf8(s);
    let bytes = utf8::encode_utf8(s);
    assert(bytes =~= ascii_bytes(s));
    assert forall|i: int| 0 <= i < bytes.len() implies is_unreserved(#[trigger] bytes[i]) by {
        assert(is_plain(s[i]));
    }
    lemma_unreserved_bytes(bytes);
    assert(bytes.map_values(|b: u8| b as char) =~= s);
}

/// Decoding undoes encoding, for every text, and what encoding writes can
/// always be decoded.
pub proof fn law_url_round_trip(s: Seq<char>)
    ensures
        url_decoded(url_encoded(s)) == s,
        escapes_aligned(url_encoded(s)),
{
    let bytes = utf8::encode_utf8(s);
    let coded = url_encoded(s);
    lemma_encoded_is_ascii(bytes);
    utf8::is_ascii_chars_encode_utf8(coded);
    assert(utf8::encode_utf8(coded) =~= ascii_bytes(coded));
    lemma_decode_encoded(bytes);
    utf8::encode_utf8_valid_utf8(s);
    utf8::encode_utf8_decode_utf8(s);
    let enc = utf8::encode_utf8(coded);
    utf8::encode_utf8_valid_utf8(coded);
    assert forall|i: int|
        #![trigger enc[i]]
        0 <= i && i + 2 < enc.len() && enc[i] == 0x25 implies utf8::is_char_boundary(
        enc,
        i + 3,
    ) by {
        if i + 3 < enc.len() {
            utf8::is_char_boundary_iff_not_is_continuation_byte(enc, i + 3);
            assert(enc[i + 3] == coded[i + 3] as u8);
        } else {
            utf8::is_char_boundary_start_end_of_seq(enc);
        }
    }
}

proof fn lemma_encoded_split(a: Seq<u8>, b: Seq<u8>)
    ensures
        encoded_bytes(a + b) == encoded_bytes(a) + encoded_bytes(b),
    decreases a.len(),
{
    let both = a + b;
    if a.len() == 0 {
        assert(both =~= b);
        assert(encoded_bytes(a) + encoded_bytes(b) =~= encoded_bytes(b));
    } else {
        lemma_encoded_split(a.drop_first(), b);
        assert(both.drop_first() =~= a.drop_first() + b);
        let head = encoded_byte(a[0]);
        let mid = encoded_bytes(a.drop_first());
        assert(head + (mid + encoded_bytes(b)) =~= head + mid + encoded_bytes(b));
    }
}

/// A text is encoded byte by byte. Letters, digits, hyphen, underscore, dot and
/// tilde stand for themselves; every other byte becomes a percent sign and its
/// two digits in base sixteen, in upper case.
pub proof fn law_encoding_goes_byte_by_byte(s: Seq<char>, a: Seq<u8>, b: u8)
    ensures
        url_encoded(s) == encoded_bytes(utf8::encode_utf8(s)),
        encoded_bytes(Seq::empty()) == Seq::<char>::empty(),
        encoded_bytes(a.push(b)) == encoded_bytes(a) + if 'A' as u8 <= b <= 'Z' as u8 || 'a' as u8
            <= b <= 'z' as u8 || '0' as u8 <= b <= '9' as u8 || b == '-' as u8 || b == '_' as u8
            || b == '.' as u8 || b == '~' as u8 {
            seq![b as char]
        } else {
            seq!['%', "0123456789ABCDEF"@[b as int / 16], "0123456789ABCDEF"@[b as int % 16]]
        },
{
    reveal_strlit("0123456789ABCDEF");
    lemma_encoded_split(a, seq![b]);
    assert(a + seq![b] =~= a.push(b));
    let one = seq![b];
    assert(encoded_bytes(one.drop_first()) =~= Seq::empty());
    assert(encoded_bytes(one) =~= encoded_byte(b));
    if !is_unreserved(b) {
        lemma_upper_digit(b / 16);
        lemma_upper_digit(b % 16);
    }
}

proof fn lemma_upper_digit(d: u8)
    requires
        d < 16,
    ensures
        hex_upper(d) == "0123456789ABCDEF"@[d as int],
{
    reveal_strlit("0123456789ABCDEF");
}

/// The byte is a digit in base sixteen, in either case, with this value.
pub open spec fn is_digit_of(b: u8, v: int) -> bool {
    ||| 0 <= v < 10 && b == 0x30 + v
    ||| 10 <= v < 16 && (b == 0x41 + (v - 10) || b == 0x61 + (v - 10))
}

/// Decoding goes from left to right: a plus sign gives a space, and every byte
/// but the plus and the percent sign stands for itself.
pub proof fn law_decoding_of_plain_bytes(b: u8, rest: Seq<u8>)
    ensures
        decoded_bytes(Seq::empty()) == Seq::<u8>::empty(),
        b != 0x25 && b != 0x2b ==> decoded_bytes(seq![b] + rest) == seq![b] + decoded_bytes(rest),
        decoded_bytes(seq![0x2bu8] + rest) == seq![0x20u8] + decoded_bytes(rest),
{
    let s = seq![b] + rest;
    let plus = seq![0x2bu8] + rest;
    assert(s.drop_first() =~= rest);
    assert(plus.drop_first() =~= rest);
}

/// A percent sign and two digits give the byte that they spell.
pub proof fn law_decoding_of_escapes(hi: u8, lo: u8, h: int, l: int, rest: Seq<u8>)
    requires
        is_digit_of(hi, h),
        is_digit_of(lo, l),
    ensures
        decoded_bytes(seq![0x25u8, hi, lo] + rest) == seq![(16 * h + l) as u8] + decoded_bytes(rest),
{
    let s = seq![0x25u8, hi, lo] + rest;
    assert(s.skip(3) =~= rest);
    assert(pair_value(hi, lo) == Some((16 * h + l) as u8));
}

/// A percent sign that two digits do not follow, nor a plus sign and a digit,
/// stands for itself.
pub proof fn law_decoding_of_other_percent_signs(rest: Seq<u8>)
    requires
        rest.len() >= 2 ==> forall|l: int| !#[trigger] is_digit_of(rest[1], l) || (rest[0] != 0x2b
            && forall|h: int| !#[trigger] is_digit_of(rest[0], h)),
    ensures
        decoded_bytes(seq![0x25u8] + rest) == seq![0x25u8] + decoded_bytes(rest),
{
    let s = seq![0x25u8] + rest;
    assert(s.drop_first() =~= rest);
    if rest.len() >= 2 {
        assert(s[1] == rest[0] && s[2] == rest[1]);
        if let Some(l) = hex_value(rest[1]) {
            assert(is_digit_of(rest[1], l as int));
        }
        if let Some(h) = hex_value(rest[0]) {
            assert(is_digit_of(rest[0], h as int));
        }
    }
}

/// A percent sign, a plus sign and one digit give the value of the digit.
pub proof fn law_decoding_of_signed_digits(lo: u8, l: int, rest: Seq<u8>)
    requires
        is_digit_of(lo, l),
    ensures
        decoded_bytes(seq![0x25u8, 0x2bu8, lo] + rest) == seq![l as u8] + decoded_bytes(rest),
{
    let s = seq![0x25u8, 0x2bu8, lo] + rest;
    assert(s.skip(3) =~= rest);
}

/// Where the decoded bytes are those of a text, decoding gives that text.
pub proof fn law_decoded_text(s: Seq<char>, t: Seq<char>)
    requires
        decoded_bytes(utf8::encode_utf8(s)) == utf8::encode_utf8(t),
    ensures
        url_decoded(s) == t,
        utf8_lossy(utf8::encode_utf8(t)) == t,
{
    utf8::encode_utf8_valid_utf8(t);
    utf8::encode_utf8_decode_utf8(t);
}

/// Bytes that are no text are repaired, as `std` does it.
pub proof fn law_repaired_text(s: Seq<char>, bytes: Seq<u8>)
    ensures
        !utf8::valid_utf8(bytes) ==> utf8_lossy(bytes) == utf8_repaired(bytes),
        !utf8::valid_utf8(decoded_bytes(utf8::encode_utf8(s))) ==> url_decoded(s) == utf8_repaired(
            decoded_bytes(utf8::encode_utf8(s)),
        ),
{
}

/// Text of one-byte characters can always be decoded. In general what counts is
/// where the two bytes behind a percent sign end.
pub proof fn law_ascii_can_be_decoded(s: Seq<char>, i: int)
    ensures
        utf8::is_ascii_chars(s) ==> escapes_aligned(s),
        ({
            let bytes = utf8::encode_utf8(s);
            0 <= i && i + 3 < bytes.len() && bytes[i] == 0x25 && 0x80 <= bytes[i + 3] <= 0xbf
                ==> !escapes_aligned(s)
        }),
        ({
            let bytes = utf8::encode_utf8(s);
            (forall|k: int|
                0 <= k && k + 3 < bytes.len() && #[trigger] bytes[k] == 0x25 ==> !(0x80 <= bytes[k
                    + 3] <= 0xbf)) ==> escapes_aligned(s)
        }),
{
    let bytes = utf8::encode_utf8(s);
    utf8::encode_utf8_valid_utf8(s);
    if 0 <= i && i + 3 < bytes.len() && bytes[i] == 0x25 && 0x80 <= bytes[i + 3] <= 0xbf {
        utf8::is_char_boundary_iff_not_is_continuation_byte(bytes, i + 3);
        assert(!utf8::is_char_boundary(bytes, i + 3));
    }
    if utf8::is_ascii_chars(s) {
        utf8::is_ascii_chars_encode_utf8(s);
    }
    if forall|k: int|
        0 <= k && k + 3 < bytes.len() && #[trigger] bytes[k] == 0x25 ==> !(0x80 <= bytes[k + 3]
            <= 0xbf) {
        assert forall|k: int|
            #![trigger bytes[k]]
            0 <= k && k + 2 < bytes.len() && bytes[k] == 0x25 implies utf8::is_char_boundary(
            bytes,
            k + 3,
        ) by {
            if k + 3 < bytes.len() {
                utf8::is_char_boundary_iff_not_is_continuation_byte(bytes, k + 3);
            } else {
                utf8::is_char_boundary_start_end_of_seq(bytes);
            }
        }
    }
    if utf8::is_ascii_chars(s) {
        assert forall|k: int|
            0 <= k && k + 3 < bytes.len() && #[trigger] bytes[k] == 0x25 implies !(0x80 <= bytes[k
            + 3] <= 0xbf) by {
            assert(s[k + 3] as u8 == bytes[k + 3]);
        }
    }
}

} // verus!
