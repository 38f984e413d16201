//! Base64 in the alphabet of URLs.

use crate::text::{lemma_ascii_bytes, low_bytes, opt_view};
use vstd::prelude::*;
use vstd::utf8::{encode_utf8, is_ascii_chars};

verus! {

/// The value of a digit; `-` and `_` count as `+` and `/`.
pub open spec fn digit_value(b: u8) -> Option<int> {
    if 0x41 <= b <= 0x5a {
        Some(b - 0x41)
    } else if 0x61 <= b <= 0x7a {
        Some(b - 0x61 + 26)
    } else if 0x30 <= b <= 0x39 {
        Some(b - 0x30 + 52)
    } else if b == 0x2b || b == 0x2d {
        Some(62)
    } else if b == 0x2f || b == 0x5f {
        Some(63)
    } else {
        None
    }
}

/// The value of a digit where padding may stand: `=` counts as nought.
pub open spec fn padded_value(b: u8) -> Option<int> {
    if b == 0x3d {
        Some(0)
    } else {
        digit_value(b)
    }
}

/// The bytes of a group of four digits with the values `a`, `b`, `c`, `d`: the
/// second byte is left out where the third digit is padding, the third byte where
/// the fourth is.
pub open spec fn group_bytes(a: int, b: int, c: int, d: int, pad3: bool, pad4: bool) -> Seq<u8> {
    let first = seq![(a * 4 + b / 16) as u8];
    let second = if pad3 { Seq::empty() } else { seq![((b % 16) * 16 + c / 4) as u8] };
    let third = if pad4 { Seq::empty() } else { seq![((c % 4) * 64 + d) as u8] };
    first + second + third
}

/// What a group of four digits stands for, if all four are digits or allowed padding.
pub open spec fn group_decoded(g: Seq<u8>) -> Option<Seq<u8>> {
    match (digit_value(g[0]), digit_value(g[1]), padded_value(g[2]), padded_value(g[3])) {
        (Some(a), Some(b), Some(c), Some(d)) => Some(
            group_bytes(a, b, c, d, g[2] == 0x3d, g[3] == 0x3d),
        ),
        _ => None,
    }
}

/// What digits stand for, group by group; fewer than four at the end are dropped.
pub open spec fn groups_decoded(s: Seq<u8>) -> Option<Seq<u8>>
    decreases s.len(),
{
    if s.len() < 4 {
        Some(Seq::empty())
    } else {
        match (group_decoded(s.take(4)), groups_decoded(s.skip(4))) {
            (Some(head), Some(tail)) => Some(head + tail),
            _ => None,
        }
    }
}

/// What a text in Base64 stands for.
pub open spec fn base64_decoded(s: Seq<char>) -> Option<Seq<u8>> {
    groups_decoded(encode_utf8(s))
}

/// The value of one digit.
fn digit_of(b: u8) -> (r: Option<u32>)
    ensures
        (match r {
            Some(v) => digit_value(b) == Some(v as int) && v < 64,
            None => digit_value(b) is None,
        }),
{
    if 0x41 <= b && b <= 0x5a {
        Some((b - 0x41) as u32)
    } else if 0x61 <= b && b <= 0x7a {
        Some((b - 0x61 + 26) as u32)
    } else if 0x30 <= b && b <= 0x39 {
        Some((b - 0x30 + 52) as u32)
    } else if b == 0x2b || b == 0x2d {
        Some(62)
    } else if b == 0x2f || b == 0x5f {
        Some(63)
    } else {
        None
    }
}

/// The value of one digit, or nought for padding.
fn padded_digit_of(b: u8) -> (r: Option<u32>)
    ensures
        (match r {
            Some(v) => padded_value(b) == Some(v as int) && v < 64,
            None => padded_value(b) is None,
        }),
{
    if b == 0x3d {
        Some(0)
    } else {
        digit_of(b)
    }
}

/// Shifting and masking compute the bytes of a group.
proof fn lemma_group_bits(a: u32, b: u32, c: u32, d: u32)
    requires
        a < 64,
        b < 64,
        c < 64,
        d < 64,
    ensures
        ((a << 2) | (b >> 4)) as u8 == a * 4 + b / 16,
        ((b << 4) | (c >> 2)) as u8 == (b % 16) * 16 + c / 4,
        ((c << 6) | d) as u8 == (c % 4) * 64 + d,
{
    assert(((a << 2) | (b >> 4)) as u8 == a * 4 + b / 16) by (bit_vector)
        requires
            a < 64,
            b < 64,
    ;
    assert(((b << 4) | (c >> 2)) as u8 == (b % 16) * 16 + c / 4) by (bit_vector)
        requires
            b < 64,
            c < 64,
    ;
    assert(((c << 6) | d) as u8 == (c % 4) * 64 + d) by (bit_vector)
        requires
            c < 64,
            d < 64,
    ;
}

/// A group that does not decode, behind groups that do, spoils the whole.
proof fn lemma_groups_step(s: Seq<u8>, i: int)
    requires
        0 <= i,
        i + 4 <= s.len(),
    ensures
        groups_decoded(s.skip(i)) == (match (
            group_decoded(s.subrange(i, i + 4)),
            groups_decoded(s.skip(i + 4)),
        ) {
            (Some(head), Some(tail)) => Some(head + tail),
            _ => None,
        }),
{
    assert(s.skip(i).take(4) =~= s.subrange(i, i + 4));
    assert(s.skip(i).skip(4) =~= s.skip(i + 4));
}

/// Decodes a text in Base64, in the alphabet of URLs or in the standard one.
pub fn base64_decode_url(input: &str) -> (r: Option<Vec<u8>>)
    ensures
        opt_view(r) == base64_decoded(input@),
{
    let chars = input.as_bytes();
    let mut out: Vec<u8> = Vec::new();
    let mut i: usize = 0;
    let ghost s = chars@;
    assert(s.skip(0) == s);
    while chars.len() - i > 3
        invariant
            s == chars@,
            s == encode_utf8(input@),
            i <= chars.len(),
            (match groups_decoded(s.skip(i as int)) {
                Some(rest) => groups_decoded(s) == Some(out@ + rest),
                None => groups_decoded(s) is None,
            }),
        decreases chars.len() - i,
    {
        proof {
            lemma_groups_step(s, i as int);
        }
        let ghost g = s.subrange(i as int, i + 4);
        assert(g[0] == s[i as int] && g[1] == s[i + 1] && g[2] == s[i + 2] && g[3] == s[i + 3]);
        let a: u32 = match digit_of(chars[i]) {
            Some(v) => v,
            None => return None,
        };
        let b: u32 = match digit_of(chars[i + 1]) {
            Some(v) => v,
            None => return None,
        };
        let c: u32 = match padded_digit_of(chars[i + 2]) {
            Some(v) => v,
            None => return None,
        };
        let d: u32 = match padded_digit_of(chars[i + 3]) {
            Some(v) => v,
            None => return None,
        };
        proof {
            lemma_group_bits(a, b, c, d);
        }
        let ghost before = out@;
        out.push(((a << 2) | (b >> 4)) as u8);
        if chars[i + 2] != 0x3d {
            out.push(((b << 4) | (c >> 2)) as u8);
        }
        if chars[i + 3] != 0x3d {
            out.push(((c << 6) | d) as u8);
        }
        assert(out@ =~= before + group_decoded(g)->0);
        proof {
            if let Some(rest) = groups_decoded(s.skip(i + 4)) {
                assert(before + (group_decoded(g)->0 + rest) =~= out@ + rest);
            }
        }
        i += 4;
    }
    assert(out@ + Seq::<u8>::empty() =~= out@);
    Some(out)
}

/// The digit for a value below sixty-four, in the alphabet of URLs.
pub open spec fn url_digit(v: int) -> char {
    if v < 26 {
        (0x41 + v) as char
    } else if v < 52 {
        (0x61 + (v - 26)) as char
    } else if v < 62 {
        (0x30 + (v - 52)) as char
    } else if v == 62 {
        '-'
    } else {
        '_'
    }
}

/// Bytes in Base64 in the alphabet of URLs, without padding: the form of the parts
/// of a JSON Web Token.
pub open spec fn base64url(bytes: Seq<u8>) -> Seq<char>
    decreases bytes.len(),
{
    if bytes.len() == 0 {
        Seq::empty()
    } else if bytes.len() == 1 {
        seq![url_digit(bytes[0] as int / 4), url_digit((bytes[0] as int % 4) * 16)]
    } else if bytes.len() == 2 {
        seq![
            url_digit(bytes[0] as int / 4),
            url_digit((bytes[0] as int % 4) * 16 + bytes[1] as int / 16),
            url_digit((bytes[1] as int % 16) * 4),
        ]
    } else {
        seq![
            url_digit(bytes[0] as int / 4),
            url_digit((bytes[0] as int % 4) * 16 + bytes[1] as int / 16),
            url_digit((bytes[1] as int % 16) * 4 + bytes[2] as int / 64),
            url_digit(bytes[2] as int % 64),
        ] + base64url(bytes.skip(3))
    }
}

/// A text filled up with `=` to groups of four bytes; one that is a single byte
/// over stays as it is.
pub open spec fn padded(s: Seq<char>) -> Seq<char> {
    let over = encode_utf8(s).len() % 4;
    if over == 2 {
        s + seq!['=', '=']
    } else if over == 3 {
        s + seq!['=']
    } else {
        s
    }
}

/// Fills a text up to groups of four bytes.
pub fn pad_base64(s: &str) -> (r: String)
    ensures
        r@ == padded(s@),
{
    let over: usize = s.as_bytes().len() % 4;
    let mut r = s.to_owned();
    if over == 2 {
        r.push('=');
        r.push('=');
    } else if over == 3 {
        r.push('=');
    }
    assert(r@ =~= padded(s@));
    r
}

/// A digit of Base64 or its padding.
pub open spec fn base64_char(c: char) -> bool {
    '-' <= c <= 'z' && c != '.'
}

proof fn lemma_ascii(s: Seq<char>)
    requires
        forall|i: int| 0 <= i < s.len() ==> base64_char(#[trigger] s[i]),
    ensures
        encode_utf8(s) == low_bytes(s),
{
    assert(is_ascii_chars(s)) by {
        assert forall|i| 0 <= i < s.len() implies '\0' <= #[trigger] s[i] <= '\u{7f}' by {
            assert(base64_char(s[i]));
        }
    }
    lemma_ascii_bytes(s);
}

proof fn lemma_digit_round_trip(v: int)
    requires
        0 <= v < 64,
    ensures
        digit_value(url_digit(v) as u8) == Some(v),
        url_digit(v) as u8 != 0x3d,
        base64_char(url_digit(v)),
{
}

/// Base64 for URLs is made of digits alone; none of them is a dot.
pub proof fn lemma_base64url_chars(bytes: Seq<u8>)
    ensures
        forall|i: int| 0 <= i < base64url(bytes).len() ==> base64_char(#[trigger] base64url(bytes)[i]),
    decreases bytes.len(),
{
    if bytes.len() >= 3 {
        lemma_base64url_chars(bytes.skip(3));
    }
    if bytes.len() > 0 {
        let x = bytes[0] as int;
        let y = if bytes.len() > 1 { bytes[1] as int } else { 0 };
        let z = if bytes.len() > 2 { bytes[2] as int } else { 0 };
        lemma_digit_round_trip(x / 4);
        lemma_digit_round_trip((x % 4) * 16);
        lemma_digit_round_trip((x % 4) * 16 + y / 16);
        lemma_digit_round_trip((y % 16) * 4);
        lemma_digit_round_trip((y % 16) * 4 + z / 64);
        lemma_digit_round_trip(z % 64);
        assert forall|i: int| 0 <= i < base64url(bytes).len() implies base64_char(
            #[trigger] base64url(bytes)[i],
        ) by {
            if i >= 4 {
                assert(base64url(bytes)[i] == base64url(bytes.skip(3))[i - 4]);
            }
        }
    }
}

/// Padding to groups of four, by the number of characters.
spec fn padded_by_len(s: Seq<char>) -> Seq<char> {
    if s.len() % 4 == 2 {
        s + seq!['=', '=']
    } else if s.len() % 4 == 3 {
        s + seq!['=']
    } else {
        s
    }
}

/// The four digits of three bytes.
#[verifier::opaque]
spec fn full_group(x: u8, y: u8, z: u8) -> Seq<char> {
    seq![
        url_digit(x as int / 4),
        url_digit((x as int % 4) * 16 + y as int / 16),
        url_digit((y as int % 16) * 4 + z as int / 64),
        url_digit(z as int % 64),
    ]
}

/// The digits and the padding of two bytes.
#[verifier::opaque]
spec fn two_byte_group(x: u8, y: u8) -> Seq<char> {
    seq![
        url_digit(x as int / 4),
        url_digit((x as int % 4) * 16 + y as int / 16),
        url_digit((y as int % 16) * 4),
        '=',
    ]
}

/// The digits and the padding of one byte.
#[verifier::opaque]
spec fn one_byte_group(x: u8) -> Seq<char> {
    seq![url_digit(x as int / 4), url_digit((x as int % 4) * 16), '=', '=']
}

proof fn lemma_full_group(x: u8, y: u8, z: u8)
    ensures
        full_group(x, y, z).len() == 4,
        group_decoded(low_bytes(full_group(x, y, z))) == Some(seq![x, y, z]),
{
    reveal(full_group);
    let (a, b, c, d) = (
        x as int / 4,
        (x as int % 4) * 16 + y as int / 16,
        (y as int % 16) * 4 + z as int / 64,
        z as int % 64,
    );
    lemma_digit_round_trip(a);
    lemma_digit_round_trip(b);
    lemma_digit_round_trip(c);
    lemma_digit_round_trip(d);
    assert(a * 4 + b / 16 == x);
    assert((b % 16) * 16 + c / 4 == y);
    assert((c % 4) * 64 + d == z);
    assert(group_bytes(a, b, c, d, false, false) =~= seq![x, y, z]);
}

proof fn lemma_two_byte_group(x: u8, y: u8)
    ensures
        two_byte_group(x, y).len() == 4,
        group_decoded(low_bytes(two_byte_group(x, y))) == Some(seq![x, y]),
{
    reveal(two_byte_group);
    let (a, b, c) = (x as int / 4, (x as int % 4) * 16 + y as int / 16, (y as int % 16) * 4);
    lemma_digit_round_trip(a);
    lemma_digit_round_trip(b);
    lemma_digit_round_trip(c);
    assert(a * 4 + b / 16 == x);
    assert((b % 16) * 16 + c / 4 == y);
    assert(group_bytes(a, b, c, 0, false, true) =~= seq![x, y]);
}

proof fn lemma_one_byte_group(x: u8)
    ensures
        one_byte_group(x).len() == 4,
        group_decoded(low_bytes(one_byte_group(x))) == Some(seq![x]),
{
    reveal(one_byte_group);
    let (a, b) = (x as int / 4, (x as int % 4) * 16);
    lemma_digit_round_trip(a);
    lemma_digit_round_trip(b);
    assert(a * 4 + b / 16 == x);
    assert(group_bytes(a, b, 0, 0, true, true) =~= seq![x]);
}

/// How the padded text begins, by the number of bytes that are left.
proof fn lemma_first_group(bytes: Seq<u8>)
    ensures
        bytes.len() == 1 ==> padded_by_len(base64url(bytes)) == one_byte_group(bytes[0]),
        bytes.len() == 2 ==> padded_by_len(base64url(bytes)) == two_byte_group(bytes[0], bytes[1]),
        bytes.len() >= 3 ==> base64url(bytes) == full_group(bytes[0], bytes[1], bytes[2])
            + base64url(bytes.skip(3)),
{
    reveal(one_byte_group);
    reveal(two_byte_group);
    reveal(full_group);
    if bytes.len() == 1 {
        assert(padded_by_len(base64url(bytes)) =~= one_byte_group(bytes[0]));
    } else if bytes.len() == 2 {
        assert(padded_by_len(base64url(bytes)) =~= two_byte_group(bytes[0], bytes[1]));
    }
}

/// A group that decodes to `head`, before digits that decode to `tail`.
proof fn lemma_group_then(g: Seq<u8>, head: Seq<u8>, rest: Seq<u8>, tail: Seq<u8>)
    requires
        g.len() == 4,
        group_decoded(g) == Some(head),
        groups_decoded(rest) == Some(tail),
    ensures
        groups_decoded(g + rest) == Some(head + tail),
{
    assert((g + rest).take(4) =~= g);
    assert((g + rest).skip(4) =~= rest);
}

/// Padding is put behind the last group.
proof fn lemma_pad_behind(g: Seq<char>, rest: Seq<char>)
    requires
        g.len() == 4,
    ensures
        low_bytes(padded_by_len(g + rest)) == low_bytes(g) + low_bytes(padded_by_len(rest)),
{
    assert((g + rest).len() % 4 == rest.len() % 4);
    assert(padded_by_len(g + rest) =~= g + padded_by_len(rest));
    assert(low_bytes(g + padded_by_len(rest)) =~= low_bytes(g) + low_bytes(padded_by_len(rest)));
}

/// A last group that is padded to four digits is read back.
proof fn lemma_last_group(g: Seq<char>, bytes: Seq<u8>)
    requires
        g.len() == 4,
        group_decoded(low_bytes(g)) == Some(bytes),
    ensures
        groups_decoded(low_bytes(g)) == Some(bytes),
{
    let none = Seq::<u8>::empty();
    lemma_group_then(low_bytes(g), bytes, none, none);
    assert(low_bytes(g) + none =~= low_bytes(g));
    assert(bytes + none =~= bytes);
}

/// A full group before digits that are read back.
proof fn lemma_next_group(g: Seq<char>, head: Seq<u8>, rest: Seq<char>, tail: Seq<u8>)
    requires
        g.len() == 4,
        group_decoded(low_bytes(g)) == Some(head),
        groups_decoded(low_bytes(padded_by_len(rest))) == Some(tail),
    ensures
        groups_decoded(low_bytes(padded_by_len(g + rest))) == Some(head + tail),
{
    lemma_pad_behind(g, rest);
    lemma_group_then(low_bytes(g), head, low_bytes(padded_by_len(rest)), tail);
}

#[verifier::spinoff_prover]
proof fn lemma_groups_round_trip(bytes: Seq<u8>)
    ensures
        groups_decoded(low_bytes(padded_by_len(base64url(bytes)))) == Some(bytes),
    decreases bytes.len(),
{
    lemma_first_group(bytes);
    if bytes.len() == 0 {
        assert(bytes =~= Seq::<u8>::empty());
        assert(groups_decoded(low_bytes(padded_by_len(base64url(bytes)))) == Some(
            Seq::<u8>::empty(),
        ));
    } else if bytes.len() == 1 {
        lemma_one_byte_group(bytes[0]);
        assert(seq![bytes[0]] =~= bytes);
        lemma_last_group(one_byte_group(bytes[0]), bytes);
    } else if bytes.len() == 2 {
        lemma_two_byte_group(bytes[0], bytes[1]);
        assert(seq![bytes[0], bytes[1]] =~= bytes);
        lemma_last_group(two_byte_group(bytes[0], bytes[1]), bytes);
    } else {
        let rest = bytes.skip(3);
        let head = seq![bytes[0], bytes[1], bytes[2]];
        lemma_groups_round_trip(rest);
        lemma_full_group(bytes[0], bytes[1], bytes[2]);
        lemma_next_group(full_group(bytes[0], bytes[1], bytes[2]), head, base64url(rest), rest);
        assert(head + rest =~= bytes);
    }
}

/// Bytes written in Base64 without padding are read back, once padded, as they were.
pub proof fn law_base64_round_trip(bytes: Seq<u8>)
    ensures
        base64_decoded(padded(base64url(bytes))) == Some(bytes),
{
    let enc = base64url(bytes);
    lemma_base64url_chars(bytes);
    lemma_ascii(enc);
    assert(padded(enc) == padded_by_len(enc));
    let full = padded(enc);
    assert forall|i: int| 0 <= i < full.len() implies base64_char(#[trigger] full[i]) by {
        if i < enc.len() {
            assert(full[i] == enc[i]);
        }
    }
    lemma_ascii(full);
    lemma_groups_round_trip(bytes);
}

/// The digits in the order of their values, in the alphabet of URLs.
pub open spec fn url_alphabet() -> Seq<char> {
    "ABCDEFGHIJKLMNOPQRSTUVWXYZabcdefghijklmnopqrstuvwxyz0123456789-_"@
}

/// The digits of Base64 for URLs stand at the places of the alphabet.
pub proof fn law_url_alphabet(v: int)
    requires
        0 <= v < 64,
    ensures
        url_digit(v)
            == "ABCDEFGHIJKLMNOPQRSTUVWXYZabcdefghijklmnopqrstuvwxyz0123456789-_"@[v],
{
    reveal_strlit("ABCDEFGHIJKLMNOPQRSTUVWXYZabcdefghijklmnopqrstuvwxyz0123456789-_");
}

/// A digit is worth its place in the alphabet, and `+` and `/` are worth as much as `-`
/// and `_`.
proof fn lemma_digit_places(c: char)
    requires
        '\0' <= c <= '\u{7f}',
    ensures
        forall|v: int| 0 <= v < 64 && c == #[trigger] url_alphabet()[v] ==> digit_value(c as u8)
            == Some(v),
        digit_value(c as u8) is Some <==> url_alphabet().contains(c) || c == '+' || c == '/',
        c == '+' ==> digit_value(c as u8) == Some(62int),
        c == '/' ==> digit_value(c as u8) == Some(63int),
{
    assert forall|v: int| 0 <= v < 64 && c == #[trigger] url_alphabet()[v] implies digit_value(
        c as u8,
    ) == Some(v) by {
        law_url_alphabet(v);
    }
    reveal_strlit("ABCDEFGHIJKLMNOPQRSTUVWXYZabcdefghijklmnopqrstuvwxyz0123456789-_");
    if url_alphabet().contains(c) {
        let v = choose|v: int| 0 <= v < url_alphabet().len() && url_alphabet()[v] == c;
        assert(digit_value(c as u8) == Some(v));
    }
    if let Some(v) = digit_value(c as u8) {
        if c != '+' && c != '/' {
            law_url_alphabet(v);
            assert(url_alphabet()[v] == c);
        }
    }
}

/// One group of four characters is read as the group of their bytes.
proof fn lemma_one_group(w: char, x: char, y: char, z: char)
    requires
        '\0' <= w <= '\u{7f}',
        '\0' <= x <= '\u{7f}',
        '\0' <= y <= '\u{7f}',
        '\0' <= z <= '\u{7f}',
    ensures
        base64_decoded(seq![w, x, y, z]) == group_decoded(
            seq![w as u8, x as u8, y as u8, z as u8],
        ),
{
    let s = seq![w, x, y, z];
    let g = seq![w as u8, x as u8, y as u8, z as u8];
    lemma_ascii_bytes(s);
    assert(low_bytes(s) =~= g);
    assert(g.take(4) =~= g);
    let none = Seq::<u8>::empty();
    assert(groups_decoded(g.skip(4)) == Some(none));
    if let Some(bytes) = group_decoded(g) {
        assert(bytes + none =~= bytes);
    }
}

/// Four digits hold three bytes, the most significant bits first. Padding in the third
/// place leaves the second byte out, and in the fourth place the third; it counts as
/// nought in what is left.
pub proof fn law_four_digits(a: int, b: int, c: int, d: int)
    requires
        0 <= a < 64,
        0 <= b < 64,
        0 <= c < 64,
        0 <= d < 64,
    ensures
        ({
            let digits = "ABCDEFGHIJKLMNOPQRSTUVWXYZabcdefghijklmnopqrstuvwxyz0123456789-_"@;
            let first = (a * 4 + b / 16) as u8;
            let second = ((b % 16) * 16 + c / 4) as u8;
            let third = ((c % 4) * 64 + d) as u8;
            &&& base64_decoded(seq![digits[a], digits[b], digits[c], digits[d]]) == Some(
                seq![first, second, third],
            )
            &&& base64_decoded(seq![digits[a], digits[b], digits[c], '=']) == Some(
                seq![first, second],
            )
            &&& base64_decoded(seq![digits[a], digits[b], '=', '=']) == Some(seq![first])
            &&& base64_decoded(seq![digits[a], digits[b], '=', digits[d]]) == Some(
                seq![first, d as u8],
            )
        }),
{
    let digits = url_alphabet();
    law_url_alphabet(a);
    law_url_alphabet(b);
    law_url_alphabet(c);
    law_url_alphabet(d);
    lemma_digit_round_trip(a);
    lemma_digit_round_trip(b);
    lemma_digit_round_trip(c);
    lemma_digit_round_trip(d);
    lemma_one_group(digits[a], digits[b], digits[c], digits[d]);
    lemma_one_group(digits[a], digits[b], digits[c], '=');
    lemma_one_group(digits[a], digits[b], '=', '=');
    lemma_one_group(digits[a], digits[b], '=', digits[d]);
    let first = (a * 4 + b / 16) as u8;
    let second = ((b % 16) * 16 + c / 4) as u8;
    let third = ((c % 4) * 64 + d) as u8;
    assert(group_bytes(a, b, c, d, false, false) =~= seq![first, second, third]);
    assert(group_bytes(a, b, c, 0, false, true) =~= seq![first, second]);
    assert(group_bytes(a, b, 0, 0, true, true) =~= seq![first]);
    assert(group_bytes(a, b, 0, d, true, false) =~= seq![first, d as u8]);
}

/// Four ASCII characters are read where the first two are digits and the last two are
/// digits or padding, and only there; `+` and `/` are digits too, and read as `-` and
/// `_`.
pub proof fn law_what_a_group_may_hold(w: char, x: char, y: char, z: char)
    requires
        '\0' <= w <= '\u{7f}',
        '\0' <= x <= '\u{7f}',
        '\0' <= y <= '\u{7f}',
        '\0' <= z <= '\u{7f}',
    ensures
        ({
            let digits = "ABCDEFGHIJKLMNOPQRSTUVWXYZabcdefghijklmnopqrstuvwxyz0123456789-_+/"@;
            base64_decoded(seq![w, x, y, z]) is Some <==> digits.contains(w) && digits.contains(x)
                && (digits.contains(y) || y == '=') && (digits.contains(z) || z == '=')
        }),
        ({
            let in_url = |c: char|
                if c == '+' {
                    '-'
                } else if c == '/' {
                    '_'
                } else {
                    c
                };
            base64_decoded(seq![in_url(w), in_url(x), in_url(y), in_url(z)]) == base64_decoded(
                seq![w, x, y, z],
            )
        }),
{
    let digits = "ABCDEFGHIJKLMNOPQRSTUVWXYZabcdefghijklmnopqrstuvwxyz0123456789-_+/"@;
    let in_url = |c: char|
        if c == '+' {
            '-'
        } else if c == '/' {
            '_'
        } else {
            c
        };
    lemma_all_digits(w);
    lemma_all_digits(x);
    lemma_all_digits(y);
    lemma_all_digits(z);
    lemma_one_group(w, x, y, z);
    lemma_one_group(in_url(w), in_url(x), in_url(y), in_url(z));
}

proof fn lemma_all_digits(c: char)
    requires
        '\0' <= c <= '\u{7f}',
    ensures
        digit_value(c as u8) is Some
            <==> "ABCDEFGHIJKLMNOPQRSTUVWXYZabcdefghijklmnopqrstuvwxyz0123456789-_+/"@.contains(c),
{
    reveal_strlit("ABCDEFGHIJKLMNOPQRSTUVWXYZabcdefghijklmnopqrstuvwxyz0123456789-_+/");
    reveal_strlit("ABCDEFGHIJKLMNOPQRSTUVWXYZabcdefghijklmnopqrstuvwxyz0123456789-_");
    let all = "ABCDEFGHIJKLMNOPQRSTUVWXYZabcdefghijklmnopqrstuvwxyz0123456789-_+/"@;
    assert(all =~= url_alphabet() + seq!['+', '/']);
    lemma_digit_places(c);
    if url_alphabet().contains(c) {
        let v = choose|v: int| 0 <= v < url_alphabet().len() && url_alphabet()[v] == c;
        assert(all[v] == c);
    }
    assert(all[64] == '+' && all[65] == '/');
    if all.contains(c) {
        let v = choose|v: int| 0 <= v < all.len() && all[v] == c;
        if v < 64 {
            assert(url_alphabet()[v] == c);
        }
    }
}

/// A text is read group by group from its beginning: four ASCII characters, and then the
/// rest. Fewer than four bytes at the end are dropped.
pub proof fn law_groups_one_by_one(group: Seq<char>, rest: Seq<char>)
    requires
        group.len() == 4,
        is_ascii_chars(group),
    ensures
        base64_decoded(group + rest) == (match (base64_decoded(group), base64_decoded(rest)) {
            (Some(head), Some(tail)) => Some(head + tail),
            _ => None,
        }),
        encode_utf8(rest).len() < 4 ==> base64_decoded(rest) == Some(Seq::<u8>::empty()),
{
    lemma_one_group(group[0], group[1], group[2], group[3]);
    assert(seq![group[0], group[1], group[2], group[3]] =~= group);
    lemma_ascii_bytes(group);
    let g = low_bytes(group);
    assert(g =~= seq![group[0] as u8, group[1] as u8, group[2] as u8, group[3] as u8]);
    lemma_encode_join(group, rest);
    let all = g + encode_utf8(rest);
    assert(all.take(4) =~= g);
    assert(all.skip(4) =~= encode_utf8(rest));
}

/// The bytes of two texts one after the other are their bytes one after the other.
proof fn lemma_encode_join(s: Seq<char>, t: Seq<char>)
    ensures
        encode_utf8(s + t) == encode_utf8(s) + encode_utf8(t),
    decreases s.len(),
{
    if s.len() == 0 {
        assert(s + t =~= t);
        assert(encode_utf8(s) + encode_utf8(t) =~= encode_utf8(t));
    } else {
        assert((s + t).drop_first() =~= s.drop_first() + t);
        lemma_encode_join(s.drop_first(), t);
        assert(encode_utf8(s + t) =~= encode_utf8(s) + encode_utf8(t));
    }
}

/// Padding goes behind a text: two signs where its bytes are two over a multiple of
/// four, one where they are three over, and none otherwise.
pub proof fn law_padding(s: Seq<char>)
    ensures
        encode_utf8(s).len() % 4 == 2 ==> padded(s) == s + "=="@,
        encode_utf8(s).len() % 4 == 3 ==> padded(s) == s + "="@,
        encode_utf8(s).len() % 4 < 2 ==> padded(s) == s,
{
    reveal_strlit("==");
    reveal_strlit("=");
    assert("=="@ =~= seq!['=', '=']);
    assert("="@ =~= seq!['=']);
}

/// A text is read only where each byte of its full groups of four is the byte of a digit
/// or of padding.
pub proof fn law_only_digits_are_read(s: Seq<char>, i: int)
    requires
        base64_decoded(s) is Some,
        0 <= i < encode_utf8(s).len() - encode_utf8(s).len() % 4,
    ensures
        encode_utf8(s)[i] < 0x80,
        "ABCDEFGHIJKLMNOPQRSTUVWXYZabcdefghijklmnopqrstuvwxyz0123456789-_+/="@.contains(
            encode_utf8(s)[i] as char,
        ),
{
    lemma_groups_hold_digits(encode_utf8(s), i);
    let b = encode_utf8(s)[i];
    reveal_strlit("ABCDEFGHIJKLMNOPQRSTUVWXYZabcdefghijklmnopqrstuvwxyz0123456789-_+/=");
    reveal_strlit("ABCDEFGHIJKLMNOPQRSTUVWXYZabcdefghijklmnopqrstuvwxyz0123456789-_+/");
    let all = "ABCDEFGHIJKLMNOPQRSTUVWXYZabcdefghijklmnopqrstuvwxyz0123456789-_+/="@;
    let digits = "ABCDEFGHIJKLMNOPQRSTUVWXYZabcdefghijklmnopqrstuvwxyz0123456789-_+/"@;
    assert(all =~= digits.push('='));
    if b == 0x3d {
        assert(all[66] == '=');
    } else {
        lemma_all_digits(b as char);
        let v = choose|v: int| 0 <= v < digits.len() && digits[v] == b as char;
        assert(all[v] == b as char);
    }
}

proof fn lemma_groups_hold_digits(s: Seq<u8>, i: int)
    requires
        groups_decoded(s) is Some,
        0 <= i < s.len() - s.len() % 4,
    ensures
        padded_value(s[i]) is Some,
    decreases s.len(),
{
    let g = s.take(4);
    if i < 4 {
        assert(g[i] == s[i]);
        assert(i == 0 || i == 1 || i == 2 || i == 3);
    } else {
        lemma_groups_hold_digits(s.skip(4), i - 4);
    }
}

} // verus!
