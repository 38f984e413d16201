//! Strings as sequences of characters: searching, cutting, joining.

use vstd::prelude::*;
use vstd::utf8::{encode_utf8, is_ascii_chars, is_ascii_chars_encode_utf8};

verus! {

/// An optional value by its view.
pub open spec fn opt_view<T: View>(o: Option<T>) -> Option<T::V> {
    match o {
        Some(t) => Some(t@),
        None => None,
    }
}

/// A result by the view of its value or of its error.
pub open spec fn result_view<T: View, E: View>(r: Result<T, E>) -> Result<T::V, E::V> {
    match r {
        Ok(t) => Ok(t@),
        Err(e) => Err(e@),
    }
}

/// The low byte of each character.
pub open spec fn low_bytes(s: Seq<char>) -> Seq<u8> {
    s.map_values(|c: char| c as u8)
}

/// ASCII text is encoded in one byte for each character.
pub proof fn lemma_ascii_bytes(s: Seq<char>)
    requires
        is_ascii_chars(s),
    ensures
        encode_utf8(s) == low_bytes(s),
{
    is_ascii_chars_encode_utf8(s);
    assert(encode_utf8(s) =~= low_bytes(s));
}

/// The position of the first `c` in `s`, or the length of `s` where there is none.
pub open spec fn first_index(s: Seq<char>, c: char) -> int
    decreases s.len(),
{
    if s.len() == 0 || s[0] == c {
        0
    } else {
        1 + first_index(s.drop_first(), c)
    }
}

/// What stands in `s` before the first `c`; the whole of `s` where there is none.
pub open spec fn up_to(s: Seq<char>, c: char) -> Seq<char> {
    s.take(first_index(s, c))
}

/// `first_index` is a position of `s` or its end, holds the character unless it
/// is the end, and no earlier position holds it.
pub proof fn lemma_first_index(s: Seq<char>, c: char)
    ensures
        0 <= first_index(s, c) <= s.len(),
        first_index(s, c) < s.len() ==> s[first_index(s, c)] == c,
        forall|j: int| 0 <= j < first_index(s, c) ==> s[j] != c,
    decreases s.len(),
{
    if s.len() != 0 && s[0] != c {
        lemma_first_index(s.drop_first(), c);
        assert forall|j: int| 0 <= j < first_index(s, c) implies s[j] != c by {
            if j > 0 {
                assert(s[j] == s.drop_first()[j - 1]);
            }
        }
    }
}

/// Only one position can be the first.
pub proof fn lemma_first_index_unique(s: Seq<char>, c: char, i: int)
    requires
        0 <= i <= s.len(),
        i < s.len() ==> s[i] == c,
        forall|j: int| 0 <= j < i ==> s[j] != c,
    ensures
        first_index(s, c) == i,
{
    lemma_first_index(s, c);
}

/// The characters of a string, one by one.
pub fn to_chars(s: &str) -> (v: Vec<char>)
    ensures
        v@ == s@,
{
    let mut v: Vec<char> = Vec::new();
    for c in it: s.chars()
        invariant
            v@ == it.seq().take(it.index()),
            it.seq() == s@,
    {
        v.push(c);
    }
    v
}

/// The string made of the given characters.
pub fn from_chars(v: &Vec<char>) -> (s: String)
    ensures
        s@ == v@,
{
    let mut s = String::new();
    let mut i: usize = 0;
    while i < v.len()
        invariant
            i <= v.len(),
            s@ == v@.take(i as int),
        decreases v.len() - i,
    {
        s.push(v[i]);
        i += 1;
    }
    s
}

/// The position of the first `c` in `s`, counted in characters.
pub fn find_char(s: &str, c: char) -> (i: usize)
    ensures
        i == first_index(s@, c),
        i <= s@.len(),
{
    let v = to_chars(s);
    let mut i: usize = 0;
    while i < v.len() && v[i] != c
        invariant
            v@ == s@,
            i <= v.len(),
            forall|j: int| 0 <= j < i ==> v@[j] != c,
        decreases v.len() - i,
    {
        i += 1;
    }
    proof {
        lemma_first_index_unique(s@, c, i as int);
    }
    i
}

/// The part of `s` before the first `c`.
pub fn cut_before<'a>(s: &'a str, c: char) -> (r: &'a str)
    ensures
        r@ == up_to(s@, c),
{
    let i: usize = find_char(s, c);
    s.substring_char(0, i)
}

/// The position at which `p` first occurs in `s`, if it does.
pub open spec fn first_match(s: Seq<char>, p: Seq<char>) -> Option<int>
    decreases s.len(),
{
    if p.is_prefix_of(s) {
        Some(0)
    } else if s.len() == 0 {
        None
    } else {
        match first_match(s.drop_first(), p) {
            Some(i) => Some(i + 1),
            None => None,
        }
    }
}

/// A position before which `p` does not occur puts the first occurrence after it.
proof fn lemma_first_match_skip(s: Seq<char>, p: Seq<char>, i: int)
    requires
        0 <= i <= s.len(),
        forall|j: int| 0 <= j < i ==> !p.is_prefix_of(#[trigger] s.skip(j)),
    ensures
        first_match(s, p) == (match first_match(s.skip(i), p) {
            Some(k) => Some(k + i),
            None => None,
        }),
    decreases i,
{
    if i == 0 {
        assert(s.skip(0) == s);
    } else {
        assert(s.skip(0) == s);
        let t = s.drop_first();
        assert forall|j: int| 0 <= j < i - 1 implies !p.is_prefix_of(#[trigger] t.skip(j)) by {
            assert(t.skip(j) == s.skip(j + 1));
        }
        lemma_first_match_skip(t, p, i - 1);
        assert(t.skip(i - 1) == s.skip(i));
    }
}

/// A first occurrence lies wholly inside the sequence, and none comes before it.
pub proof fn lemma_first_match(s: Seq<char>, p: Seq<char>)
    ensures
        first_match(s, p) matches Some(i) ==> {
            &&& 0 <= i
            &&& i + p.len() <= s.len()
            &&& p.is_prefix_of(s.skip(i))
            &&& forall|j: int| 0 <= j < i ==> !p.is_prefix_of(#[trigger] s.skip(j))
        },
    decreases s.len(),
{
    if p.is_prefix_of(s) {
        assert(s.skip(0) == s);
    } else if s.len() > 0 {
        let t = s.drop_first();
        lemma_first_match(t, p);
        if let Some(i) = first_match(t, p) {
            assert(s.skip(i + 1) == t.skip(i));
            assert forall|j: int| 0 <= j < i + 1 implies !p.is_prefix_of(#[trigger] s.skip(j)) by {
                if j == 0 {
                    assert(s.skip(0) == s);
                } else {
                    assert(s.skip(j) == t.skip(j - 1));
                }
            }
        }
    }
}

/// An occurrence with none before it is the first.
pub proof fn lemma_first_match_unique(s: Seq<char>, p: Seq<char>, i: int)
    requires
        0 <= i <= s.len(),
        p.is_prefix_of(s.skip(i)),
        forall|j: int| 0 <= j < i ==> !p.is_prefix_of(#[trigger] s.skip(j)),
    ensures
        first_match(s, p) == Some(i),
{
    lemma_first_match_skip(s, p, i);
}

/// Whether `p` stands in `v` at position `i`.
fn stands_at(v: &Vec<char>, i: usize, p: &Vec<char>) -> (b: bool)
    requires
        i <= v.len(),
    ensures
        b == p@.is_prefix_of(v@.skip(i as int)),
{
    if v.len() - i < p.len() {
        return false;
    }
    let mut k: usize = 0;
    while k < p.len()
        invariant
            i + p.len() <= v.len(),
            k <= p.len(),
            forall|j: int| 0 <= j < k ==> p@[j] == v@[i + j],
        decreases p.len() - k,
    {
        if v[i + k] != p[k] {
            assert(v@.skip(i as int).subrange(0, p@.len() as int)[k as int] != p@[k as int]);
            return false;
        }
        k += 1;
    }
    assert(v@.skip(i as int).subrange(0, p@.len() as int) =~= p@);
    true
}

/// The position at which `p` first occurs in `s`, counted in characters.
pub fn find_text(s: &str, p: &str) -> (r: Option<usize>)
    ensures
        (match r {
            Some(i) => first_match(s@, p@) == Some(i as int) && i + p@.len() <= s@.len(),
            None => first_match(s@, p@) is None,
        }),
{
    let v = to_chars(s);
    let q = to_chars(p);
    let mut i: usize = 0;
    while i < v.len() && !stands_at(&v, i, &q)
        invariant
            v@ == s@,
            q@ == p@,
            i <= v.len(),
            forall|j: int| 0 <= j < i ==> !p@.is_prefix_of(#[trigger] s@.skip(j)),
        decreases v.len() - i,
    {
        i += 1;
    }
    proof {
        lemma_first_match_skip(s@, p@, i as int);
        lemma_first_match(s@, p@);
    }
    if stands_at(&v, i, &q) {
        Some(i)
    } else {
        None
    }
}

/// Whether two strings hold the same characters.
pub fn same_text(a: &str, b: &str) -> (r: bool)
    ensures
        r == (a@ == b@),
{
    a.to_owned() == b.to_owned()
}

/// Whether `s` begins with `p`.
pub fn begins_with(s: &str, p: &str) -> (r: bool)
    ensures
        r == p@.is_prefix_of(s@),
{
    let n: usize = p.unicode_len();
    n <= s.unicode_len() && same_text(s.substring_char(0, n), p)
}

/// Whether `s` ends with `p`.
pub fn finishes_with(s: &str, p: &str) -> (r: bool)
    ensures
        r == p@.is_suffix_of(s@),
{
    let n: usize = s.unicode_len();
    let k: usize = p.unicode_len();
    k <= n && same_text(s.substring_char(n - k, n), p)
}

/// `s` without the run of `c` at its end.
pub open spec fn trim_end(s: Seq<char>, c: char) -> Seq<char>
    decreases s.len(),
{
    if s.len() > 0 && s.last() == c {
        trim_end(s.drop_last(), c)
    } else {
        s
    }
}

/// What is cut off the end is a run of `c`, and no more can be cut.
pub proof fn lemma_trim_end(s: Seq<char>, c: char)
    ensures
        trim_end(s, c).len() <= s.len(),
        trim_end(s, c) == s.take(trim_end(s, c).len() as int),
        forall|j: int| trim_end(s, c).len() <= j < s.len() ==> s[j] == c,
        trim_end(s, c).len() > 0 ==> trim_end(s, c).last() != c,
    decreases s.len(),
{
    if s.len() > 0 && s.last() == c {
        let t = s.drop_last();
        lemma_trim_end(t, c);
        let m = trim_end(t, c).len() as int;
        assert(t.take(m) =~= s.take(m));
        assert forall|j: int| m <= j < s.len() implies s[j] == c by {
            if j < t.len() {
                assert(t[j] == s[j]);
            }
        }
    } else {
        assert(s.take(s.len() as int) =~= s);
    }
}

/// Cutting the same run off gives the same rest.
pub proof fn lemma_trim_end_unique(s: Seq<char>, c: char, m: int)
    requires
        0 <= m <= s.len(),
        forall|j: int| m <= j < s.len() ==> s[j] == c,
        m > 0 ==> s[m - 1] != c,
    ensures
        trim_end(s, c) == s.take(m),
{
    lemma_trim_end(s, c);
    let n = trim_end(s, c).len() as int;
    if n < m {
        assert(s[m - 1] == c);
    } else if m < n {
        assert(s[n - 1] == c);
        assert(trim_end(s, c)[n - 1] == s[n - 1]);
    }
}

/// `s` without the run of `c` at its end.
pub fn cut_end<'a>(s: &'a str, c: char) -> (r: &'a str)
    ensures
        r@ == trim_end(s@, c),
{
    let v = to_chars(s);
    let mut n: usize = v.len();
    assert(s@.take(n as int) == s@);
    while n > 0 && v[n - 1] == c
        invariant
            v@ == s@,
            n <= v.len(),
            trim_end(s@.take(n as int), c) == trim_end(s@, c),
        decreases n,
    {
        assert(s@.take(n as int).drop_last() == s@.take(n - 1));
        n -= 1;
    }
    assert(s@.subrange(0, n as int) == s@.take(n as int));
    s.substring_char(0, n)
}

/// The decimal digit for a value below ten.
pub open spec fn digit(d: nat) -> char {
    (48 + d) as char
}

/// A number in decimal notation, without leading zeros.
pub open spec fn decimal(n: nat) -> Seq<char>
    decreases n,
{
    if n < 10 {
        seq![digit(n)]
    } else {
        decimal(n / 10).push(digit(n % 10))
    }
}

/// A number in decimal notation.
pub fn decimal_text(n: usize) -> (s: String)
    ensures
        s@ == decimal(n as nat),
    decreases n,
{
    let c: char = (48 + (n % 10) as u8) as char;
    if n < 10 {
        let mut s = String::new();
        s.push(c);
        assert(s@ == seq![digit(n as nat)]);
        s
    } else {
        let mut s = decimal_text(n / 10);
        s.push(c);
        s
    }
}

/// Two strings, one after the other.
pub fn join2(a: &str, b: &str) -> (s: String)
    ensures
        s@ == a@ + b@,
{
    let mut s = a.to_owned();
    s.append(b);
    s
}

/// Three strings, one after the other.
pub fn join3(a: &str, b: &str, c: &str) -> (s: String)
    ensures
        s@ == a@ + b@ + c@,
{
    let mut s = a.to_owned();
    s.append(b);
    s.append(c);
    s
}

/// The pieces of `s` between the occurrences of `sep`.
pub open spec fn pieces(s: Seq<char>, sep: char) -> Seq<Seq<char>>
    decreases s.len(),
{
    let i = first_index(s, sep);
    if 0 <= i < s.len() {
        seq![s.take(i)] + pieces(s.skip(i + 1), sep)
    } else {
        seq![s]
    }
}

/// Joining two texts by a separator joins their pieces.
pub proof fn lemma_pieces_join(a: Seq<char>, b: Seq<char>, sep: char)
    ensures
        pieces(a.push(sep) + b, sep) == pieces(a, sep) + pieces(b, sep),
    decreases a.len(),
{
    let s = a.push(sep) + b;
    lemma_first_index(a, sep);
    let i = first_index(a, sep);
    assert forall|j: int| 0 <= j < i implies s[j] != sep by {
        assert(s[j] == a[j]);
    }
    lemma_first_index_unique(s, sep, i);
    assert(s.take(i) =~= a.take(i));
    if i < a.len() {
        lemma_pieces_join(a.skip(i + 1), b, sep);
        assert(s.skip(i + 1) =~= a.skip(i + 1).push(sep) + b);
    } else {
        assert(s.skip(i + 1) =~= b);
        assert(a.take(i) =~= a);
    }
    assert(pieces(s, sep) =~= pieces(a, sep) + pieces(b, sep));
}

/// Splits `s` at each occurrence of `sep`.
pub fn split_on<'a>(s: &'a str, sep: char) -> (v: Vec<&'a str>)
    ensures
        v.len() == pieces(s@, sep).len(),
        forall|j: int| 0 <= j < v.len() ==> #[trigger] v@[j]@ == pieces(s@, sep)[j],
{
    let mut v: Vec<&'a str> = Vec::new();
    let mut rest = s;
    let ghost all = pieces(s@, sep);
    loop
        invariant_except_break
            all == pieces(s@, sep),
            v.len() + pieces(rest@, sep).len() == all.len(),
            forall|j: int| 0 <= j < v.len() ==> #[trigger] v@[j]@ == all[j],
            forall|j: int|
                0 <= j < pieces(rest@, sep).len() ==> #[trigger] pieces(rest@, sep)[j] == all[v.len()
                    + j],
        ensures
            v.len() == pieces(s@, sep).len(),
            forall|j: int| 0 <= j < v.len() ==> #[trigger] v@[j]@ == pieces(s@, sep)[j],
        decreases rest@.len(),
    {
        proof {
            lemma_first_index(rest@, sep);
        }
        let n: usize = rest.unicode_len();
        let i: usize = find_char(rest, sep);
        let ghost now = pieces(rest@, sep);
        let ghost before = v@;
        let piece = rest.substring_char(0, i);
        v.push(piece);
        assert(now[0] == piece@);
        if i >= n {
            assert(now.len() == 1);
            assert forall|j: int| 0 <= j < v.len() implies #[trigger] v@[j]@ == all[j] by {
                if j < before.len() {
                    assert(v@[j] == before[j]);
                } else {
                    assert(now[0] == all[before.len() as int]);
                }
            }
            break;
        }
        let next = rest.substring_char(i + 1, n);
        assert(rest@.skip(i + 1) == next@);
        assert forall|j: int| 0 <= j < v.len() implies #[trigger] v@[j]@ == all[j] by {
            if j < before.len() {
                assert(v@[j] == before[j]);
            } else {
                assert(now[0] == all[before.len() as int]);
            }
        }
        assert forall|j: int| 0 <= j < pieces(next@, sep).len() implies #[trigger] pieces(
            next@,
            sep,
        )[j] == all[v.len() + j] by {
            assert(now[j + 1] == pieces(next@, sep)[j]);
        }
        rest = next;
    }
    v
}

/// Texts one after the other, with `sep` between them.
pub open spec fn joined(parts: Seq<Seq<char>>, sep: Seq<char>) -> Seq<char>
    decreases parts.len(),
{
    if parts.len() == 0 {
        Seq::empty()
    } else if parts.len() == 1 {
        parts[0]
    } else {
        joined(parts.drop_last(), sep) + sep + parts.last()
    }
}

/// The characters that the strings of a sequence hold.
pub open spec fn views(v: Seq<String>) -> Seq<Seq<char>> {
    v.map_values(|s: String| s@)
}

/// Joins strings, with `sep` between them.
pub fn join_all(parts: &Vec<String>, sep: &str) -> (s: String)
    ensures
        s@ == joined(views(parts@), sep@),
{
    let mut s = String::new();
    let mut i: usize = 0;
    let ghost all = views(parts@);
    while i < parts.len()
        invariant
            i <= parts.len(),
            all == views(parts@),
            s@ == joined(all.take(i as int), sep@),
        decreases parts.len() - i,
    {
        assert(all.take(i + 1).drop_last() == all.take(i as int));
        if i > 0 {
            s.append(sep);
        }
        s.append(parts[i].as_str());
        i += 1;
    }
    assert(all.take(i as int) == all);
    s
}

/// `s` without the run of `c` at its beginning.
pub open spec fn trim_start(s: Seq<char>, c: char) -> Seq<char>
    decreases s.len(),
{
    if s.len() > 0 && s[0] == c {
        trim_start(s.drop_first(), c)
    } else {
        s
    }
}

/// What is cut off the beginning is a run of `c`.
pub proof fn lemma_trim_start(s: Seq<char>, c: char)
    ensures
        trim_start(s, c).len() <= s.len(),
        trim_start(s, c) == s.skip(s.len() - trim_start(s, c).len()),
        forall|j: int| 0 <= j < s.len() - trim_start(s, c).len() ==> s[j] == c,
    decreases s.len(),
{
    if s.len() > 0 && s[0] == c {
        let t = s.drop_first();
        lemma_trim_start(t, c);
        let k = t.len() - trim_start(t, c).len();
        assert(t.skip(k) =~= s.skip(k + 1));
        assert forall|j: int| 0 <= j < k + 1 implies s[j] == c by {
            if j > 0 {
                assert(t[j - 1] == s[j]);
            }
        }
    } else {
        assert(s.skip(0) =~= s);
    }
}

/// `s` without the run of `c` at its beginning.
pub fn cut_start<'a>(s: &'a str, c: char) -> (r: &'a str)
    ensures
        r@ == trim_start(s@, c),
{
    let v = to_chars(s);
    let mut i: usize = 0;
    assert(s@.skip(0) == s@);
    while i < v.len() && v[i] == c
        invariant
            v@ == s@,
            i <= v.len(),
            trim_start(s@.skip(i as int), c) == trim_start(s@, c),
        decreases v.len() - i,
    {
        assert(s@.skip(i as int).drop_first() == s@.skip(i + 1));
        i += 1;
    }
    assert(s@.subrange(i as int, s@.len() as int) == s@.skip(i as int));
    s.substring_char(i, v.len())
}

/// The value of a digit.
pub open spec fn digit_value(c: char) -> nat {
    (c as u32 - 48) as nat
}

/// The value of digits, read as a decimal number.
pub open spec fn decimal_value(s: Seq<char>) -> nat
    decreases s.len(),
{
    if s.len() == 0 {
        0
    } else {
        decimal_value(s.drop_last()) * 10 + digit_value(s.last())
    }
}

/// Decimal notation consists of digits, is never empty, and names its number.
pub proof fn lemma_decimal(n: nat)
    ensures
        decimal(n).len() >= 1,
        forall|i: int| 0 <= i < decimal(n).len() ==> '0' <= #[trigger] decimal(n)[i] <= '9',
        decimal_value(decimal(n)) == n,
        n < 1000 ==> decimal(n).len() <= 3,
        n < 100 ==> decimal(n).len() <= 2,
        n < 10 ==> decimal(n).len() == 1,
    decreases n,
{
    if n < 10 {
        assert(decimal(n).drop_last() =~= Seq::<char>::empty());
        assert(decimal_value(decimal(n).drop_last()) == 0);
    } else {
        lemma_decimal(n / 10);
        assert(decimal(n).drop_last() =~= decimal(n / 10));
    }
}

/// A character, a number of times.
pub open spec fn run_of(c: char, n: nat) -> Seq<char> {
    Seq::new(n, |i: int| c)
}

/// What stands before a mark is cut out exactly; a text without the mark stays whole.
pub proof fn law_up_to(front: Seq<char>, c: char, back: Seq<char>)
    requires
        !front.contains(c),
    ensures
        up_to(front + seq![c] + back, c) == front,
        first_index(front + seq![c] + back, c) == front.len(),
        up_to(front, c) == front,
        first_index(front, c) == front.len(),
{
    let s = front + seq![c] + back;
    let n = front.len() as int;
    assert forall|j: int| 0 <= j < n implies front[j] != c by {
        assert(front.contains(front[j]));
    }
    assert forall|j: int| 0 <= j < n implies s[j] != c by {
        assert(s[j] == front[j]);
    }
    assert(s[n] == c);
    lemma_first_index_unique(s, c, n);
    lemma_first_index_unique(front, c, n);
    assert(s.take(n) =~= front);
    assert(front.take(n) =~= front);
}

/// A text that does not end with a character is what is left of it when that character
/// is put behind it any number of times and cut off again.
pub proof fn law_trim_end(s: Seq<char>, c: char, n: nat)
    requires
        s.len() > 0 ==> s.last() != c,
    ensures
        trim_end(s + run_of(c, n), c) == s,
{
    let t = s + run_of(c, n);
    lemma_trim_end_unique(t, c, s.len() as int);
    assert(t.take(s.len() as int) =~= s);
}

/// A text that does not begin with a character is what is left of it when that character
/// is put before it any number of times and cut off again.
pub proof fn law_trim_start(s: Seq<char>, c: char, n: nat)
    requires
        s.len() > 0 ==> s[0] != c,
    ensures
        trim_start(run_of(c, n) + s, c) == s,
    decreases n,
{
    let t = run_of(c, n) + s;
    if n == 0 {
        assert(t =~= s);
    } else {
        law_trim_start(s, c, (n - 1) as nat);
        assert(t[0] == c);
        assert(t.drop_first() =~= run_of(c, (n - 1) as nat) + s);
    }
}

/// A text without separators is one piece, and a separator joins the pieces on its left
/// and on its right.
pub proof fn law_pieces(a: Seq<char>, b: Seq<char>, sep: char)
    ensures
        !a.contains(sep) ==> pieces(a, sep) == seq![a],
        pieces(a + seq![sep] + b, sep) == pieces(a, sep) + pieces(b, sep),
{
    if !a.contains(sep) {
        law_up_to(a, sep, b);
    }
    lemma_pieces_join(a, b, sep);
    assert(a.push(sep) + b =~= a + seq![sep] + b);
}

/// Decimal notation: one digit for a number below ten, and one more digit behind for
/// each further place.
pub proof fn law_decimal(n: nat, d: nat)
    requires
        d < 10,
    ensures
        decimal(d) == seq!["0123456789"@[d as int]],
        n > 0 ==> decimal(10 * n + d) == decimal(n).push("0123456789"@[d as int]),
{
    reveal_strlit("0123456789");
    assert(decimal(d) =~= seq!["0123456789"@[d as int]]);
    if n > 0 {
        assert((10 * n + d) / 10 == n);
        assert((10 * n + d) % 10 == d);
    }
}

/// Texts are joined one after the other, with the separator between two of them and
/// nowhere else.
pub proof fn law_joined(parts: Seq<Seq<char>>, last: Seq<char>, sep: Seq<char>)
    ensures
        joined(Seq::<Seq<char>>::empty(), sep) == Seq::<char>::empty(),
        joined(seq![last], sep) == last,
        parts.len() > 0 ==> joined(parts.push(last), sep) == joined(parts, sep) + sep + last,
{
    assert(parts.push(last).drop_last() =~= parts);
}

/// A text is found where it first stands, and only where it stands at all.
pub proof fn law_first_match(s: Seq<char>, p: Seq<char>)
    ensures
        first_match(s, p) matches Some(i) ==> {
            &&& 0 <= i
            &&& i + p.len() <= s.len()
            &&& s.subrange(i, i + p.len()) == p
            &&& forall|j: int| 0 <= j < i ==> #[trigger] s.subrange(j, j + p.len()) != p
        },
        first_match(s, p) is None ==> forall|j: int|
            0 <= j <= s.len() - p.len() ==> #[trigger] s.subrange(j, j + p.len()) != p,
{
    lemma_first_match(s, p);
    if let Some(i) = first_match(s, p) {
        assert(s.subrange(i, i + p.len()) =~= s.skip(i).subrange(0, p.len() as int));
        assert forall|j: int| 0 <= j < i implies #[trigger] s.subrange(j, j + p.len()) != p by {
            assert(!p.is_prefix_of(s.skip(j)));
            assert(s.subrange(j, j + p.len()) =~= s.skip(j).subrange(0, p.len() as int));
        }
    } else {
        assert forall|j: int| 0 <= j <= s.len() - p.len() implies #[trigger] s.subrange(
            j,
            j + p.len(),
        ) != p by {
            if s.subrange(j, j + p.len()) == p {
                assert(s.subrange(j, j + p.len()) =~= s.skip(j).subrange(0, p.len() as int));
                lemma_some_match(s, p, j);
            }
        }
    }
}

/// A text that stands somewhere is found.
proof fn lemma_some_match(s: Seq<char>, p: Seq<char>, j: int)
    requires
        0 <= j <= s.len(),
        p.is_prefix_of(s.skip(j)),
    ensures
        first_match(s, p) is Some,
    decreases j,
{
    if j == 0 {
        assert(s.skip(0) =~= s);
    } else if !p.is_prefix_of(s) {
        assert(s.skip(j) =~= s.drop_first().skip(j - 1));
        lemma_some_match(s.drop_first(), p, j - 1);
    }
}

} // verus!
