//! Small letters: where marks stand in a text does not depend on its letter case.

use crate::text::{
    first_index, first_match, lemma_first_index, lemma_first_index_unique, lemma_first_match,
    lemma_first_match_unique, lemma_trim_end, lemma_trim_end_unique, pieces, to_chars, trim_end,
    trim_start,
};
use vstd::prelude::*;

verus! {

/// A character that is no ASCII letter.
pub open spec fn no_letter(c: char) -> bool {
    !('A' <= c <= 'Z') && !('a' <= c <= 'z')
}

/// Text with its ASCII letters made small.
pub open spec fn ascii_lowercase(s: Seq<char>) -> Seq<char> {
    s.map_values(|c: char| if 'A' <= c <= 'Z' { (c as u32 + 32) as char } else { c })
}

/// Text with its ASCII letters made capital.
pub open spec fn ascii_uppercase(s: Seq<char>) -> Seq<char> {
    s.map_values(|c: char| if 'a' <= c <= 'z' { (c as u32 - 32) as char } else { c })
}

/// Makes the ASCII letters of a text small.
pub fn small_letters(s: &str) -> (r: String)
    ensures
        r@ == ascii_lowercase(s@),
{
    let v = to_chars(s);
    let mut r = String::new();
    let mut i: usize = 0;
    while i < v.len()
        invariant
            v@ == s@,
            i <= v.len(),
            r@ == ascii_lowercase(s@).take(i as int),
        decreases v.len() - i,
    {
        let c: char = v[i];
        if 'A' <= c && c <= 'Z' {
            r.push((c as u8 + 32) as char);
        } else {
            r.push(c);
        }
        assert(r@ =~= ascii_lowercase(s@).take(i + 1));
        i += 1;
    }
    assert(r@ =~= ascii_lowercase(s@));
    r
}

/// A text is the same in small letters before and after its letters are made capital.
pub proof fn lemma_upper_lower(s: Seq<char>)
    ensures
        ascii_lowercase(ascii_uppercase(s)) == ascii_lowercase(s),
{
    assert(ascii_lowercase(ascii_uppercase(s)) =~= ascii_lowercase(s));
}

/// Small letters stay small.
pub proof fn lemma_lower_lower(s: Seq<char>)
    ensures
        ascii_lowercase(ascii_lowercase(s)) == ascii_lowercase(s),
{
    assert(ascii_lowercase(ascii_lowercase(s)) =~= ascii_lowercase(s));
}

/// A mark that is no letter stands first at the same place.
pub proof fn lemma_lower_index(s: Seq<char>, c: char)
    requires
        no_letter(c),
    ensures
        first_index(ascii_lowercase(s), c) == first_index(s, c),
{
    let low = ascii_lowercase(s);
    lemma_first_index(s, c);
    assert forall|j: int| 0 <= j < first_index(s, c) implies low[j] != c by {
        assert(s[j] != c);
    }
    lemma_first_index_unique(low, c, first_index(s, c));
}

/// Cutting a mark off the end goes equally far.
pub proof fn lemma_lower_trim_end(s: Seq<char>, c: char)
    requires
        no_letter(c),
    ensures
        trim_end(ascii_lowercase(s), c) == ascii_lowercase(trim_end(s, c)),
{
    lemma_trim_end(s, c);
    let m = trim_end(s, c).len() as int;
    if m > 0 {
        assert(trim_end(s, c)[m - 1] == s[m - 1]);
    }
    lemma_trim_end_unique(ascii_lowercase(s), c, m);
    assert(ascii_lowercase(s).take(m) =~= ascii_lowercase(s.take(m)));
}

/// Cutting a mark off the beginning goes equally far.
pub proof fn lemma_lower_trim_start(s: Seq<char>, c: char)
    requires
        no_letter(c),
    ensures
        trim_start(ascii_lowercase(s), c) == ascii_lowercase(trim_start(s, c)),
    decreases s.len(),
{
    if s.len() > 0 && s[0] == c {
        lemma_lower_trim_start(s.drop_first(), c);
        assert(ascii_lowercase(s).drop_first() =~= ascii_lowercase(s.drop_first()));
    }
}

/// A text in small letters has the same pieces in small letters.
pub proof fn lemma_lower_pieces(s: Seq<char>, sep: char)
    requires
        no_letter(sep),
    ensures
        pieces(ascii_lowercase(s), sep).len() == pieces(s, sep).len(),
        forall|j: int|
            0 <= j < pieces(s, sep).len() ==> #[trigger] pieces(ascii_lowercase(s), sep)[j]
                == ascii_lowercase(pieces(s, sep)[j]),
    decreases s.len(),
{
    let low = ascii_lowercase(s);
    let i = first_index(s, sep);
    lemma_lower_index(s, sep);
    lemma_first_index(s, sep);
    if i < s.len() {
        lemma_lower_pieces(s.skip(i + 1), sep);
        assert(low.skip(i + 1) =~= ascii_lowercase(s.skip(i + 1)));
        assert(low.take(i) =~= ascii_lowercase(s.take(i)));
    }
}

/// The mark behind a scheme stands first at the same place.
pub proof fn lemma_lower_scheme(s: Seq<char>)
    ensures
        first_match(ascii_lowercase(s), "://"@) == first_match(s, "://"@),
{
    reveal_strlit("://");
    let low = ascii_lowercase(s);
    let mark = "://"@;
    assert forall|j: int| 0 <= j <= s.len() implies mark.is_prefix_of(low.skip(j))
        == mark.is_prefix_of(#[trigger] s.skip(j)) by {
        if j + 3 <= s.len() {
            let (a, b) = (low.skip(j).subrange(0, 3), s.skip(j).subrange(0, 3));
            assert(a[0] == low[j] && a[1] == low[j + 1] && a[2] == low[j + 2]);
            assert(b[0] == s[j] && b[1] == s[j + 1] && b[2] == s[j + 2]);
            if mark == b {
                assert(a =~= mark);
            }
            if mark == a {
                assert(b =~= mark);
            }
        }
    }
    lemma_first_match(s, mark);
    lemma_first_match(low, mark);
    if let Some(i) = first_match(s, mark) {
        assert forall|j: int| 0 <= j < i implies !mark.is_prefix_of(#[trigger] low.skip(j)) by {
            assert(!mark.is_prefix_of(s.skip(j)));
        }
        assert(mark.is_prefix_of(s.skip(i)));
        lemma_first_match_unique(low, mark, i);
    } else if let Some(i) = first_match(low, mark) {
        assert forall|j: int| 0 <= j < i implies !mark.is_prefix_of(#[trigger] s.skip(j)) by {
            assert(!mark.is_prefix_of(low.skip(j)));
        }
        assert(mark.is_prefix_of(s.skip(i)));
        lemma_first_match_unique(s, mark, i);
    }
}

/// In small letters a text keeps its length; each of the letters `A` to `Z` becomes the
/// letter at the same place of the alphabet, and every other character stays.
pub proof fn law_small_letters(s: Seq<char>, i: int)
    requires
        0 <= i < s.len(),
    ensures
        ascii_lowercase(s).len() == s.len(),
        forall|k: int|
            0 <= k < 26 && s[i] == #[trigger] "ABCDEFGHIJKLMNOPQRSTUVWXYZ"@[k] ==> ascii_lowercase(
                s,
            )[i] == "abcdefghijklmnopqrstuvwxyz"@[k],
        !"ABCDEFGHIJKLMNOPQRSTUVWXYZ"@.contains(s[i]) ==> ascii_lowercase(s)[i] == s[i],
{
    reveal_strlit("ABCDEFGHIJKLMNOPQRSTUVWXYZ");
    reveal_strlit("abcdefghijklmnopqrstuvwxyz");
    let upper = "ABCDEFGHIJKLMNOPQRSTUVWXYZ"@;
    let lower = "abcdefghijklmnopqrstuvwxyz"@;
    assert forall|k: int| 0 <= k < 26 implies #[trigger] upper[k] as u32 == 65 + k && lower[k] as u32
        == 97 + k by {}
    if 'A' <= s[i] <= 'Z' {
        let k = s[i] as u32 - 65;
        assert(upper[k] as u32 == 65 + k);
        assert(upper[k] == s[i]);
        assert(upper.contains(s[i]));
    }
}

} // verus!
