//! Bytes and percent-encoded text as text.

use percent_encoding::percent_decode_str;
use vstd::prelude::*;
use vstd::utf8;

verus! {

/// The text that `String::from_utf8_lossy` gives for bytes that are not UTF-8.
pub uninterp spec fn replaced_text(bytes: Seq<u8>) -> Seq<char>;

/// `bytes` read as UTF-8, with replacement characters where they are not.
pub open spec fn lossy_text(bytes: Seq<u8>) -> Seq<char> {
    if utf8::valid_utf8(bytes) {
        utf8::decode_utf8(bytes)
    } else {
        replaced_text(bytes)
    }
}

/// The value of a hexadecimal digit.
pub open spec fn hex_value(b: u8) -> Option<u8> {
    if 0x30 <= b <= 0x39 {
        Some((b - 0x30) as u8)
    } else if 0x61 <= b <= 0x66 {
        Some((b - 0x61 + 10) as u8)
    } else if 0x41 <= b <= 0x46 {
        Some((b - 0x41 + 10) as u8)
    } else {
        None
    }
}

/// Whether `bytes` starts with a percent sign and two hexadecimal digits.
pub open spec fn starts_escape(bytes: Seq<u8>) -> bool {
    bytes.len() >= 3 && bytes[0] == 0x25 && hex_value(bytes[1]) is Some && hex_value(
        bytes[2],
    ) is Some
}

/// `bytes` with every percent sign and two hexadecimal digits replaced by the
/// byte that they stand for.
pub open spec fn percent_bytes(bytes: Seq<u8>) -> Seq<u8>
    decreases bytes.len(),
{
    if bytes.len() == 0 {
        Seq::empty()
    } else if starts_escape(bytes) {
        seq![(hex_value(bytes[1])->0 * 16 + hex_value(bytes[2])->0) as u8] + percent_bytes(
            bytes.skip(3),
        )
    } else {
        seq![bytes[0]] + percent_bytes(bytes.skip(1))
    }
}

/// What percent-encoded text stands for.
pub open spec fn percent_text(text: Seq<char>) -> Seq<char> {
    lossy_text(percent_bytes(utf8::encode_utf8(text)))
}

/// `String::from_utf8_lossy`: the text that the bytes encode, where they are
/// UTF-8. Of other bytes only that the text is a function of them.
#[verifier::external_body]
pub(crate) fn from_utf8_lossy(bytes: &[u8]) -> (text: String)
    ensures
        text@ == (if utf8::valid_utf8(bytes@) {
            utf8::decode_utf8(bytes@)
        } else {
            replaced_text(bytes@)
        }),
{
    String::from_utf8_lossy(bytes).into_owned()
}

/// `percent_decode_str` and its `decode_utf8_lossy`: the escapes in the UTF-8
/// form of the text are replaced by their bytes, and the outcome is read as
/// `String::from_utf8_lossy` reads it.
#[verifier::external_body]
pub(crate) fn percent_decoded(text: &str) -> (decoded: String)
    ensures
        decoded@ == lossy_text(percent_bytes(utf8::encode_utf8(text@))),
{
    percent_decode_str(text).decode_utf8_lossy().into_owned()
}

// --- Laws ---

/// Bytes without a percent sign stand for themselves.
pub proof fn lemma_percent_bytes_plain(bytes: Seq<u8>)
    requires
        forall|i: int| 0 <= i < bytes.len() ==> #[trigger] bytes[i] != 0x25,
    ensures
        percent_bytes(bytes) == bytes,
    decreases bytes.len(),
{
    if bytes.len() > 0 {
        let rest = bytes.skip(1);
        assert forall|i: int| 0 <= i < rest.len() implies #[trigger] rest[i] != 0x25 by {
            assert(rest[i] == bytes[i + 1]);
        }
        lemma_percent_bytes_plain(rest);
        assert(bytes[0] != 0x25);
        assert(seq![bytes[0]] + rest == bytes);
    }
}

/// Only a percent sign is encoded with the byte of one.
proof fn lemma_encoded_without_percent(text: Seq<char>)
    requires
        forall|i: int| 0 <= i < text.len() ==> #[trigger] text[i] != '%',
    ensures
        forall|i: int|
            0 <= i < utf8::encode_utf8(text).len() ==> #[trigger] utf8::encode_utf8(text)[i]
                != 0x25,
    decreases text.len(),
{
    if text.len() > 0 {
        let rest = text.drop_first();
        assert forall|i: int| 0 <= i < rest.len() implies #[trigger] rest[i] != '%' by {
            assert(rest[i] == text[i + 1]);
        }
        lemma_encoded_without_percent(rest);
        assert(text[0] != '%');
        let v = text[0] as u32;
        lemma_percent_code(text[0]);
        lemma_scalar_without_percent(v);
        let first = utf8::encode_scalar(v);
        let all = utf8::encode_utf8(text);
        assert(all == first + utf8::encode_utf8(rest));
        assert forall|i: int| 0 <= i < all.len() implies #[trigger] all[i] != 0x25 by {
            if i < first.len() {
                assert(all[i] == first[i]);
            } else {
                assert(all[i] == utf8::encode_utf8(rest)[i - first.len()]);
            }
        }
    }
}

proof fn lemma_percent_code(c: char)
    requires
        c != '%',
    ensures
        c as u32 != 0x25,
{
}

proof fn lemma_scalar_without_percent(v: u32)
    requires
        v != 0x25,
    ensures
        forall|i: int|
            0 <= i < utf8::encode_scalar(v).len() ==> #[trigger] utf8::encode_scalar(v)[i] != 0x25,
{
    assert(v <= 0x7f ==> ((v & 0x7f) as u8) as u32 == v) by (bit_vector);
    assert((0xc0 | (((v >> 6) & 0x1f) as u8)) != 0x25) by (bit_vector);
    assert((0xe0 | (((v >> 12) & 0x0f) as u8)) != 0x25) by (bit_vector);
    assert((0xf0 | (((v >> 18) & 0x7) as u8)) != 0x25) by (bit_vector);
    assert((0x80 | ((v & 0x3f) as u8)) != 0x25) by (bit_vector);
    assert((0x80 | (((v >> 6) & 0x3f) as u8)) != 0x25) by (bit_vector);
    assert((0x80 | (((v >> 12) & 0x3f) as u8)) != 0x25) by (bit_vector);
}

/// Text without a percent sign stands for itself.
pub proof fn law_plain_text_is_kept(text: Seq<char>)
    requires
        forall|i: int| 0 <= i < text.len() ==> #[trigger] text[i] != '%',
    ensures
        percent_text(text) == text,
{
    lemma_encoded_without_percent(text);
    lemma_percent_bytes_plain(utf8::encode_utf8(text));
    utf8::encode_utf8_valid_utf8(text);
    utf8::encode_utf8_decode_utf8(text);
}

/// A hexadecimal digit.
pub open spec fn hex_digit(d: u8, upper: bool) -> char {
    if d < 10 {
        (0x30 + d) as char
    } else if upper {
        (0x41 + d - 10) as char
    } else {
        (0x61 + d - 10) as char
    }
}

/// `bytes` with every one of them percent-encoded.
pub open spec fn escaped(bytes: Seq<u8>, upper: bool) -> Seq<char>
    decreases bytes.len(),
{
    if bytes.len() == 0 {
        Seq::empty()
    } else {
        seq!['%', hex_digit(bytes[0] / 16, upper), hex_digit(bytes[0] % 16, upper)] + escaped(
            bytes.skip(1),
            upper,
        )
    }
}

/// An ASCII character is encoded as itself.
proof fn lemma_encoded_ascii(c: char, rest: Seq<char>)
    requires
        c as u32 <= 0x7f,
    ensures
        utf8::encode_utf8(seq![c] + rest) == seq![c as u8] + utf8::encode_utf8(rest),
{
    let text = seq![c] + rest;
    let v = c as u32;
    assert(text.drop_first() == rest);
    assert(v <= 0x7f ==> ((v & 0x7f) as u8) as u32 == v) by (bit_vector);
    assert(utf8::encode_scalar(v) == seq![c as u8]);
}

proof fn lemma_escaped_bytes(bytes: Seq<u8>, upper: bool)
    ensures
        percent_bytes(utf8::encode_utf8(escaped(bytes, upper))) == bytes,
    decreases bytes.len(),
{
    if bytes.len() > 0 {
        let b = bytes[0];
        let hi = hex_digit(b / 16, upper);
        let lo = hex_digit(b % 16, upper);
        let rest = escaped(bytes.skip(1), upper);
        lemma_encoded_ascii(lo, rest);
        lemma_encoded_ascii(hi, seq![lo] + rest);
        lemma_encoded_ascii('%', seq![hi] + (seq![lo] + rest));
        assert(escaped(bytes, upper) == seq!['%'] + (seq![hi] + (seq![lo] + rest)));
        let all = utf8::encode_utf8(escaped(bytes, upper));
        let tail = utf8::encode_utf8(rest);
        assert(all == seq![0x25u8] + (seq![hi as u8] + (seq![lo as u8] + tail)));
        assert(all[0] == 0x25 && all[1] == hi as u8 && all[2] == lo as u8);
        assert(hex_value(hi as u8) == Some((b / 16) as u8));
        assert(hex_value(lo as u8) == Some((b % 16) as u8));
        assert(all.skip(3) == tail);
        lemma_escaped_bytes(bytes.skip(1), upper);
        assert(seq![b] + bytes.skip(1) == bytes);
    }
}

/// Percent-encoded text is read back, whatever it holds.
pub proof fn law_escaped_text_is_read_back(text: Seq<char>, upper: bool)
    ensures
        percent_text(escaped(utf8::encode_utf8(text), upper)) == text,
{
    lemma_escaped_bytes(utf8::encode_utf8(text), upper);
    utf8::encode_utf8_valid_utf8(text);
    utf8::encode_utf8_decode_utf8(text);
}

/// Bytes that encode a text are read as that text, whatever it is.
pub proof fn law_encoded_text_is_read(text: Seq<char>)
    ensures
        lossy_text(utf8::encode_utf8(text)) == text,
{
    utf8::encode_utf8_valid_utf8(text);
    utf8::encode_utf8_decode_utf8(text);
}

/// `bytes` with some of them percent-encoded: all that are not plain ASCII, the
/// percent signs, and any others that `escape` says.
pub open spec fn partly_escaped(bytes: Seq<u8>, escape: Seq<bool>, upper: bool) -> Seq<char>
    decreases bytes.len(),
{
    if bytes.len() == 0 {
        Seq::empty()
    } else {
        let rest = partly_escaped(bytes.skip(1), escape.skip(1), upper);
        if escape[0] || bytes[0] == 0x25 || bytes[0] > 0x7f {
            seq!['%', hex_digit(bytes[0] / 16, upper), hex_digit(bytes[0] % 16, upper)] + rest
        } else {
            seq![bytes[0] as char] + rest
        }
    }
}

proof fn lemma_partly_escaped_bytes(bytes: Seq<u8>, escape: Seq<bool>, upper: bool)
    requires
        escape.len() == bytes.len(),
    ensures
        percent_bytes(utf8::encode_utf8(partly_escaped(bytes, escape, upper))) == bytes,
    decreases bytes.len(),
{
    if bytes.len() > 0 {
        let b = bytes[0];
        let rest = partly_escaped(bytes.skip(1), escape.skip(1), upper);
        let text = partly_escaped(bytes, escape, upper);
        let all = utf8::encode_utf8(text);
        let tail = utf8::encode_utf8(rest);
        lemma_partly_escaped_bytes(bytes.skip(1), escape.skip(1), upper);
        assert(seq![b] + bytes.skip(1) == bytes);
        if escape[0] || b == 0x25 || b > 0x7f {
            let hi = hex_digit(b / 16, upper);
            let lo = hex_digit(b % 16, upper);
            lemma_encoded_ascii(lo, rest);
            lemma_encoded_ascii(hi, seq![lo] + rest);
            lemma_encoded_ascii('%', seq![hi] + (seq![lo] + rest));
            assert(text == seq!['%'] + (seq![hi] + (seq![lo] + rest)));
            assert(all == seq![0x25u8] + (seq![hi as u8] + (seq![lo as u8] + tail)));
            assert(all[0] == 0x25 && all[1] == hi as u8 && all[2] == lo as u8);
            assert(hex_value(hi as u8) == Some((b / 16) as u8));
            assert(hex_value(lo as u8) == Some((b % 16) as u8));
            assert(all.skip(3) == tail);
        } else {
            let c = b as char;
            lemma_encoded_ascii(c, rest);
            assert(all == seq![b] + tail);
            assert(all[0] == b);
            assert(all.skip(1) == tail);
        }
    }
}

/// Percent-encoded text is read back however much of it is encoded.
pub proof fn law_partly_escaped_text_is_read_back(
    text: Seq<char>,
    escape: Seq<bool>,
    upper: bool,
)
    requires
        escape.len() == utf8::encode_utf8(text).len(),
    ensures
        percent_text(partly_escaped(utf8::encode_utf8(text), escape, upper)) == text,
{
    lemma_partly_escaped_bytes(utf8::encode_utf8(text), escape, upper);
    law_encoded_text_is_read(text);
}

/// Whether a byte is that of a hexadecimal digit.
pub open spec fn is_hex(b: u8) -> bool {
    0x30 <= b <= 0x39 || 0x41 <= b <= 0x46 || 0x61 <= b <= 0x66
}

/// A percent sign that no two hexadecimal digits follow stands for itself.
pub proof fn law_stray_percent_sign_is_kept(rest: Seq<u8>)
    requires
        rest.len() < 2 || !is_hex(rest[0]) || !is_hex(rest[1]),
    ensures
        percent_bytes(seq![0x25u8] + rest) == seq![0x25u8] + percent_bytes(rest),
{
    let all = seq![0x25u8] + rest;
    assert(all.skip(1) == rest);
    if rest.len() >= 2 {
        assert(all[1] == rest[0] && all[2] == rest[1]);
    }
}

} // verus!
