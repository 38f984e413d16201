//! Percent-encoding of text in URLs.

use crate::text::{lemma_ascii_bytes, low_bytes};
use vstd::prelude::*;
use vstd::utf8::{
    decode_utf8, encode_utf8, encode_utf8_decode_utf8, encode_utf8_valid_utf8, is_ascii_chars,
    valid_utf8,
};

verus! {

/// A byte that stands for itself in percent-encoded text: a letter, a digit, or
/// one of `-`, `_`, `.`, `~`.
pub open spec fn unreserved(b: u8) -> bool {
    ||| 0x30 <= b <= 0x39
    ||| 0x41 <= b <= 0x5a
    ||| 0x61 <= b <= 0x7a
    ||| b == 0x2d
    ||| b == 0x5f
    ||| b == 0x2e
    ||| b == 0x7e
}

/// The upper-case hexadecimal digit for a value below sixteen.
pub open spec fn hex_digit(d: int) -> char {
    if d < 10 {
        (0x30 + d) as char
    } else {
        (0x37 + d) as char
    }
}

/// The value of a hexadecimal digit, in either case.
pub open spec fn hex_value(b: u8) -> Option<int> {
    if 0x30 <= b <= 0x39 {
        Some(b - 0x30)
    } else if 0x41 <= b <= 0x46 {
        Some(b - 0x37)
    } else if 0x61 <= b <= 0x66 {
        Some(b - 0x57)
    } else {
        None
    }
}

/// One byte, percent-encoded.
pub open spec fn percent_byte(b: u8) -> Seq<char> {
    if unreserved(b) {
        seq![b as char]
    } else {
        seq!['%', hex_digit(b as int / 16), hex_digit(b as int % 16)]
    }
}

/// Bytes, percent-encoded one after the other.
pub open spec fn percent_encode(bytes: Seq<u8>) -> Seq<char>
    decreases bytes.len(),
{
    if bytes.len() == 0 {
        Seq::empty()
    } else {
        percent_byte(bytes[0]) + percent_encode(bytes.drop_first())
    }
}

/// Whether `bytes` begins with `%` and two hexadecimal digits.
pub open spec fn begins_with_escape(bytes: Seq<u8>) -> bool {
    &&& bytes.len() >= 3
    &&& bytes[0] == 0x25
    &&& hex_value(bytes[1]) is Some
    &&& hex_value(bytes[2]) is Some
}

/// Each escape replaced by the byte it stands for, every other byte kept.
pub open spec fn percent_decode(bytes: Seq<u8>) -> Seq<u8>
    decreases bytes.len(),
{
    if bytes.len() == 0 {
        Seq::empty()
    } else if begins_with_escape(bytes) {
        seq![(hex_value(bytes[1])->0 * 16 + hex_value(bytes[2])->0) as u8] + percent_decode(
            bytes.skip(3),
        )
    } else {
        seq![bytes[0]] + percent_decode(bytes.skip(1))
    }
}

/// Text as it is written into a URL: its UTF-8 bytes, percent-encoded.
pub open spec fn url_encoded(s: Seq<char>) -> Seq<char> {
    percent_encode(encode_utf8(s))
}

/// What percent-encoded text stands for, where the bytes are UTF-8.
pub open spec fn url_decoded(s: Seq<char>) -> Option<Seq<char>> {
    let bytes = percent_decode(encode_utf8(s));
    if valid_utf8(bytes) {
        Some(decode_utf8(bytes))
    } else {
        None
    }
}

/// A character that percent-encoding can produce.
pub open spec fn url_safe(c: char) -> bool {
    c == '%' || ('-' <= c <= '~' && unreserved(c as u8))
}

/// Percent-encoding produces nothing but escapes and characters that stand for
/// themselves.
proof fn lemma_percent_encode_safe(bytes: Seq<u8>)
    ensures
        forall|i: int|
            0 <= i < percent_encode(bytes).len() ==> url_safe(#[trigger] percent_encode(bytes)[i]),
    decreases bytes.len(),
{
    if bytes.len() > 0 {
        lemma_percent_encode_safe(bytes.drop_first());
        let head = percent_byte(bytes[0]);
        let tail = percent_encode(bytes.drop_first());
        let n = bytes[0] as int;
        assert(0 <= n / 16 < 16 && 0 <= n % 16 < 16);
        assert forall|i: int| 0 <= i < (head + tail).len() implies url_safe(
            #[trigger] (head + tail)[i],
        ) by {
            if i >= head.len() {
                assert((head + tail)[i] == tail[i - head.len()]);
            } else {
                assert((head + tail)[i] == head[i]);
            }
        }
    }
}

/// The two digits of a byte, read back.
proof fn lemma_hex_round_trip(b: u8)
    ensures
        hex_value(hex_digit(b as int / 16) as u8) == Some(b as int / 16),
        hex_value(hex_digit(b as int % 16) as u8) == Some(b as int % 16),
        (b as int / 16) * 16 + b as int % 16 == b,
{
    let n = b as int;
    assert(0 <= n / 16 < 16 && 0 <= n % 16 < 16);
}

/// Decoding the bytes of percent-encoded bytes gives the bytes back.
proof fn lemma_percent_round_trip(bytes: Seq<u8>)
    ensures
        percent_decode(low_bytes(percent_encode(bytes))) == bytes,
    decreases bytes.len(),
{
    if bytes.len() > 0 {
        let b = bytes[0];
        let tail = percent_encode(bytes.drop_first());
        let all = low_bytes(percent_encode(bytes));
        lemma_percent_round_trip(bytes.drop_first());
        assert(all =~= low_bytes(percent_byte(b)) + low_bytes(tail));
        if unreserved(b) {
            assert(all[0] == b);
            assert(all.skip(1) =~= low_bytes(tail));
        } else {
            lemma_hex_round_trip(b);
            assert(all[0] == 0x25);
            assert(all[1] == hex_digit(b as int / 16) as u8);
            assert(all[2] == hex_digit(b as int % 16) as u8);
            assert(all.skip(3) =~= low_bytes(tail));
        }
        assert(percent_decode(all) =~= bytes);
    } else {
        assert(low_bytes(percent_encode(bytes)) =~= Seq::<u8>::empty());
    }
}

/// Decoding what was encoded gives the text back.
pub proof fn law_url_round_trip(s: Seq<char>)
    ensures
        url_decoded(url_encoded(s)) == Some(s),
{
    let bytes = encode_utf8(s);
    let enc = percent_encode(bytes);
    lemma_percent_encode_safe(bytes);
    lemma_percent_round_trip(bytes);
    assert(is_ascii_chars(enc)) by {
        assert forall|i| 0 <= i < enc.len() implies '\0' <= #[trigger] enc[i] <= '\u{7f}' by {
            assert(url_safe(enc[i]));
        }
    }
    lemma_ascii_bytes(enc);
    encode_utf8_valid_utf8(s);
    encode_utf8_decode_utf8(s);
}

/// Encoded text holds no character that has a meaning of its own in a query:
/// every character of it is a letter, a digit, or one of `-`, `_`, `.`, `~`, `%`.
pub proof fn law_url_encoded_safe(s: Seq<char>, i: int)
    requires
        0 <= i < url_encoded(s).len(),
    ensures
        url_safe(url_encoded(s)[i]),
{
    lemma_percent_encode_safe(encode_utf8(s));
}

proof fn lemma_percent_encode_plain(bytes: Seq<u8>)
    requires
        forall|i: int| 0 <= i < bytes.len() ==> unreserved(#[trigger] bytes[i]),
    ensures
        percent_encode(bytes) == bytes.map_values(|b: u8| b as char),
    decreases bytes.len(),
{
    let f = |b: u8| b as char;
    if bytes.len() > 0 {
        assert(unreserved(bytes[0]));
        assert forall|i: int| 0 <= i < bytes.drop_first().len() implies unreserved(
            #[trigger] bytes.drop_first()[i],
        ) by {
            assert(bytes.drop_first()[i] == bytes[i + 1]);
        }
        lemma_percent_encode_plain(bytes.drop_first());
        assert(percent_encode(bytes) =~= bytes.map_values(f));
    } else {
        assert(percent_encode(bytes) =~= bytes.map_values(f));
    }
}

/// Text made of nothing but letters, digits, `-`, `_`, `.` and `~` stays as it is.
pub proof fn law_url_encoded_plain(s: Seq<char>)
    requires
        forall|i: int| 0 <= i < s.len() ==> url_safe(#[trigger] s[i]) && s[i] != '%',
    ensures
        url_encoded(s) == s,
{
    assert(is_ascii_chars(s)) by {
        assert forall|i| 0 <= i < s.len() implies '\0' <= #[trigger] s[i] <= '\u{7f}' by {
            assert(url_safe(s[i]));
        }
    }
    lemma_ascii_bytes(s);
    let bytes = encode_utf8(s);
    assert forall|i: int| 0 <= i < bytes.len() implies unreserved(#[trigger] bytes[i]) by {
        assert(url_safe(s[i]));
    }
    lemma_percent_encode_plain(bytes);
    assert(bytes.map_values(|b: u8| b as char) =~= s) by {
        assert forall|i: int| 0 <= i < s.len() implies bytes[i] as char == s[i] by {
            assert(url_safe(s[i]));
        }
    }
}

/// Bytes without a percent sign stand for themselves.
proof fn lemma_percent_decode_plain(bytes: Seq<u8>)
    requires
        !bytes.contains(0x25),
    ensures
        percent_decode(bytes) == bytes,
    decreases bytes.len(),
{
    if bytes.len() > 0 {
        assert(bytes.contains(bytes[0]));
        let rest = bytes.skip(1);
        if rest.contains(0x25) {
            let j = choose|j: int| 0 <= j < rest.len() && rest[j] == 0x25;
            assert(bytes[j + 1] == 0x25);
        }
        lemma_percent_decode_plain(rest);
        assert(seq![bytes[0]] + rest =~= bytes);
    } else {
        assert(bytes =~= Seq::<u8>::empty());
    }
}

/// ASCII text without a percent sign stands for itself.
pub proof fn law_url_decoded_plain(s: Seq<char>)
    requires
        is_ascii_chars(s),
        !s.contains('%'),
    ensures
        url_decoded(s) == Some(s),
{
    lemma_ascii_bytes(s);
    let bytes = encode_utf8(s);
    if bytes.contains(0x25) {
        let j = choose|j: int| 0 <= j < bytes.len() && bytes[j] == 0x25;
        assert('\0' <= s[j] <= '\u{7f}');
        assert(s[j] == '%');
    }
    lemma_percent_decode_plain(bytes);
    encode_utf8_valid_utf8(s);
    encode_utf8_decode_utf8(s);
}

} // verus!
