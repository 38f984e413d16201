//! The target of a request: its path, and the parameters of its query.

use crate::outside::url_decode;
use crate::percent::{law_url_encoded_safe, law_url_round_trip, url_decoded, url_encoded, url_safe};
use crate::text::{
    find_char, first_index, from_chars, law_pieces, law_up_to, lemma_first_index,
    lemma_first_index_unique, lemma_pieces_join, pieces, split_on, to_chars, up_to,
};
use vstd::hash_map::StringHashMap;
use vstd::prelude::*;

verus! {

/// Text with each `+` replaced by a space.
pub open spec fn plus_as_space(s: Seq<char>) -> Seq<char> {
    s.map_values(|c: char| if c == '+' { ' ' } else { c })
}

/// A value of a query as it was meant: `+` is a space, escapes are decoded; where
/// the escapes are not UTF-8 they stay.
pub open spec fn form_decoded(v: Seq<char>) -> Seq<char> {
    match url_decoded(plus_as_space(v)) {
        Some(t) => t,
        None => plus_as_space(v),
    }
}

/// The name in a piece of a query: what stands before its first `=`.
pub open spec fn pair_name(p: Seq<char>) -> Seq<char> {
    up_to(p, '=')
}

/// The value in a piece of a query: what stands after its first `=`, decoded;
/// nothing where it has none.
pub open spec fn pair_value(p: Seq<char>) -> Seq<char> {
    let i = first_index(p, '=');
    if i < p.len() {
        form_decoded(p.skip(i + 1))
    } else {
        Seq::empty()
    }
}

/// The parameters that pieces of a query set; a later one replaces an earlier one
/// of the same name, and a piece without a name sets nothing.
pub open spec fn pairs_map(ps: Seq<Seq<char>>) -> Map<Seq<char>, Seq<char>>
    decreases ps.len(),
{
    if ps.len() == 0 {
        Map::empty()
    } else {
        let earlier = pairs_map(ps.drop_last());
        if pair_name(ps.last()).len() == 0 {
            earlier
        } else {
            earlier.insert(pair_name(ps.last()), pair_value(ps.last()))
        }
    }
}

/// The parameters of a query.
pub open spec fn query_map(query: Seq<char>) -> Map<Seq<char>, Seq<char>> {
    pairs_map(pieces(query, '&'))
}

/// The texts that a map from names to strings holds.
pub open spec fn texts(m: Map<Seq<char>, String>) -> Map<Seq<char>, Seq<char>> {
    m.map_values(|v: String| v@)
}

/// The path of a request target: what stands before its first `?`.
pub open spec fn target_path(target: Seq<char>) -> Seq<char> {
    up_to(target, '?')
}

/// The query of a request target: what stands after its first `?`, if there is one.
pub open spec fn target_query(target: Seq<char>) -> Seq<char> {
    let i = first_index(target, '?');
    if i < target.len() {
        target.skip(i + 1)
    } else {
        Seq::empty()
    }
}

/// Splits a request target into its path and its query.
pub fn split_path_query(path_and_query: &str) -> (r: (&str, &str))
    ensures
        r.0@ == target_path(path_and_query@),
        r.1@ == target_query(path_and_query@),
{
    let n: usize = path_and_query.unicode_len();
    let i: usize = find_char(path_and_query, '?');
    let path = path_and_query.substring_char(0, i);
    if i < n {
        (path, path_and_query.substring_char(i + 1, n))
    } else {
        (path, path_and_query.substring_char(n, n))
    }
}

/// Replaces each `+` by a space.
fn spaces_for_plus(s: &str) -> (r: String)
    ensures
        r@ == plus_as_space(s@),
{
    let mut v = to_chars(s);
    let mut i: usize = 0;
    while i < v.len()
        invariant
            i <= v.len(),
            v.len() == s@.len(),
            forall|j: int| 0 <= j < i ==> v@[j] == plus_as_space(s@)[j],
            forall|j: int| i <= j < v.len() ==> v@[j] == s@[j],
        decreases v.len() - i,
    {
        if v[i] == '+' {
            v.set(i, ' ');
        }
        i += 1;
    }
    assert(v@ == plus_as_space(s@));
    from_chars(&v)
}

/// Decodes a value of a query.
pub fn decode_form_value(s: &str) -> (r: String)
    ensures
        r@ == form_decoded(s@),
{
    let plain = spaces_for_plus(s);
    match url_decode(plain.as_str()) {
        Some(t) => t,
        None => plain,
    }
}

/// Reads the parameters of a query.
pub fn parse_query_string(query: &str) -> (m: StringHashMap<String>)
    ensures
        texts(m@) == query_map(query@),
{
    let mut m: StringHashMap<String> = StringHashMap::new();
    let parts = split_on(query, '&');
    let ghost ps = pieces(query@, '&');
    let mut i: usize = 0;
    assert(texts(m@) =~= pairs_map(ps.take(0)));
    while i < parts.len()
        invariant
            ps == pieces(query@, '&'),
            parts.len() == ps.len(),
            forall|j: int| 0 <= j < ps.len() ==> parts@[j]@ == #[trigger] ps[j],
            i <= parts.len(),
            texts(m@) == pairs_map(ps.take(i as int)),
        decreases parts.len() - i,
    {
        let piece = parts[i];
        let n: usize = piece.unicode_len();
        let k: usize = find_char(piece, '=');
        let name = piece.substring_char(0, k);
        let ghost before = m@;
        assert(piece@ == ps[i as int]);
        assert(ps.take(i + 1).drop_last() == ps.take(i as int));
        if name.unicode_len() > 0 {
            let value = if k < n {
                decode_form_value(piece.substring_char(k + 1, n))
            } else {
                String::new()
            };
            m.insert(name.to_owned(), value);
            assert(texts(m@) =~= texts(before).insert(name@, value@));
        }
        i += 1;
    }
    assert(ps.take(i as int) == ps);
    m
}

/// A target with a `?` is its path, the `?` and its query; one without is its path
/// alone. The path never holds a `?`.
pub proof fn law_target_parts(target: Seq<char>)
    ensures
        !target_path(target).contains('?'),
        target.contains('?') ==> target == target_path(target).push('?') + target_query(target),
        !target.contains('?') ==> target == target_path(target) && target_query(target).len() == 0,
{
    lemma_first_index(target, '?');
    let i = first_index(target, '?');
    if target.contains('?') {
        let j = choose|j: int| 0 <= j < target.len() && target[j] == '?';
        assert(i < target.len());
        assert(target =~= target.take(i).push('?') + target.skip(i + 1));
    } else {
        assert(target =~= target.take(i));
    }
}

/// A parameter as it is written into a query.
pub open spec fn pair_text(name: Seq<char>, value: Seq<char>) -> Seq<char> {
    name.push('=') + url_encoded(value)
}

/// A query that sets parameters one after the other.
pub open spec fn query_text(ps: Seq<(Seq<char>, Seq<char>)>) -> Seq<char>
    decreases ps.len(),
{
    if ps.len() == 0 {
        Seq::empty()
    } else if ps.len() == 1 {
        pair_text(ps[0].0, ps[0].1)
    } else {
        query_text(ps.drop_last()).push('&') + pair_text(ps.last().0, ps.last().1)
    }
}

/// The parameters themselves, a later one in place of an earlier one of the same name.
pub open spec fn params_map(ps: Seq<(Seq<char>, Seq<char>)>) -> Map<Seq<char>, Seq<char>>
    decreases ps.len(),
{
    if ps.len() == 0 {
        Map::empty()
    } else {
        params_map(ps.drop_last()).insert(ps.last().0, ps.last().1)
    }
}

/// A name that a query can carry as it is.
pub open spec fn plain_name(name: Seq<char>) -> bool {
    name.len() > 0 && !name.contains('&') && !name.contains('=')
}

/// What a written parameter reads as.
proof fn lemma_pair_read(name: Seq<char>, value: Seq<char>)
    requires
        plain_name(name),
    ensures
        pieces(pair_text(name, value), '&') == seq![pair_text(name, value)],
        pair_name(pair_text(name, value)) == name,
        pair_value(pair_text(name, value)) == value,
{
    let p = pair_text(name, value);
    let enc = url_encoded(value);
    assert forall|i: int| 0 <= i < enc.len() implies url_safe(#[trigger] enc[i]) by {
        law_url_encoded_safe(value, i);
    }
    assert forall|j: int| 0 <= j < p.len() implies p[j] != '&' by {
        if j < name.len() {
            assert(name.contains(name[j]));
        } else if j > name.len() {
            assert(url_safe(enc[j - name.len() - 1]));
        }
    }
    lemma_first_index_unique(p, '&', p.len() as int);
    assert forall|j: int| 0 <= j < name.len() implies p[j] != '=' by {
        assert(name.contains(name[j]));
    }
    lemma_first_index_unique(p, '=', name.len() as int);
    assert(p.take(name.len() as int) =~= name);
    assert(p.skip(name.len() as int + 1) =~= enc);
    assert(plus_as_space(enc) =~= enc) by {
        assert forall|i: int| 0 <= i < enc.len() implies plus_as_space(enc)[i] == enc[i] by {
            assert(url_safe(enc[i]));
        }
    }
    law_url_round_trip(value);
}

/// A query written from parameters reads back as those parameters.
pub proof fn law_query_round_trip(ps: Seq<(Seq<char>, Seq<char>)>)
    requires
        forall|i: int| 0 <= i < ps.len() ==> plain_name(#[trigger] ps[i].0),
    ensures
        query_map(query_text(ps)) == params_map(ps),
    decreases ps.len(),
{
    if ps.len() == 0 {
        let none = Seq::<char>::empty();
        assert(pieces(none, '&') == seq![none]);
        assert(pair_name(none) =~= none);
        assert(seq![none].drop_last() =~= Seq::<Seq<char>>::empty());
        assert(pairs_map(seq![none]) == pairs_map(Seq::<Seq<char>>::empty()));
    } else {
        let last = ps.last();
        let one = pair_text(last.0, last.1);
        let rest = ps.drop_last();
        lemma_pair_read(last.0, last.1);
        if ps.len() == 1 {
            assert(seq![one].drop_last() =~= Seq::<Seq<char>>::empty());
            assert(rest =~= Seq::<(Seq<char>, Seq<char>)>::empty());
            assert(pairs_map(seq![one]) == pairs_map(seq![one].drop_last()).insert(last.0, last.1));
            assert(params_map(rest) == pairs_map(seq![one].drop_last()));
        } else {
            law_query_round_trip(rest);
            lemma_pieces_join(query_text(rest), one, '&');
            let all = pieces(query_text(ps), '&');
            assert(all == pieces(query_text(rest), '&') + seq![one]);
            assert(all.drop_last() =~= pieces(query_text(rest), '&'));
            assert(all.last() == one);
        }
    }
}

proof fn lemma_pairs_append(a: Seq<Seq<char>>, b: Seq<Seq<char>>)
    ensures
        pairs_map(a + b) == pairs_map(a).union_prefer_right(pairs_map(b)),
    decreases b.len(),
{
    if b.len() == 0 {
        assert(a + b =~= a);
        assert(pairs_map(a).union_prefer_right(pairs_map(b)) =~= pairs_map(a));
    } else {
        lemma_pairs_append(a, b.drop_last());
        assert((a + b).drop_last() =~= a + b.drop_last());
        assert((a + b).last() == b.last());
        assert(pairs_map(a + b) =~= pairs_map(a).union_prefer_right(pairs_map(b)));
    }
}

/// An ampersand parts a query in two: what the second part sets takes the place of what
/// the first part sets under the same name, and nothing else is lost.
pub proof fn law_later_parameters_win(a: Seq<char>, b: Seq<char>)
    ensures
        query_map(a + seq!['&'] + b) == query_map(a).union_prefer_right(query_map(b)),
{
    law_pieces(a, b, '&');
    lemma_pairs_append(pieces(a, '&'), pieces(b, '&'));
}

/// One parameter: its name is what stands before the first equals sign, as it is, and
/// its value is what stands behind it, decoded. Without an equals sign the value is
/// empty; without a name there is no parameter.
pub proof fn law_one_parameter(name: Seq<char>, value: Seq<char>)
    requires
        name.len() > 0,
        !name.contains('&'),
        !name.contains('='),
        !value.contains('&'),
    ensures
        query_map(name + seq!['='] + value) == map![name => form_decoded(value)],
        query_map(name) == map![name => Seq::<char>::empty()],
        query_map(seq!['='] + value) == Map::<Seq<char>, Seq<char>>::empty(),
        query_map(Seq::<char>::empty()) == Map::<Seq<char>, Seq<char>>::empty(),
{
    let none = Seq::<char>::empty();
    let pair = name + seq!['='] + value;
    let nameless = seq!['='] + value;
    assert forall|j: int| 0 <= j < pair.len() implies pair[j] != '&' by {
        if j < name.len() {
            assert(name.contains(name[j]));
        } else if j > name.len() {
            assert(pair[j] == value[j - name.len() - 1]);
            assert(value.contains(value[j - name.len() - 1]));
        }
    }
    assert forall|j: int| 0 <= j < nameless.len() implies nameless[j] != '&' by {
        if j > 0 {
            assert(nameless[j] == value[j - 1]);
            assert(value.contains(value[j - 1]));
        }
    }
    law_pieces(pair, none, '&');
    law_pieces(name, none, '&');
    law_pieces(nameless, none, '&');
    law_pieces(none, none, '&');
    law_up_to(name, '=', value);
    law_up_to(none, '=', value);
    assert(none + seq!['='] + value =~= nameless);
    assert(pair.skip(name.len() as int + 1) =~= value);
    let no_pieces = Seq::<Seq<char>>::empty();
    assert(seq![pair].drop_last() =~= no_pieces);
    assert(seq![name].drop_last() =~= no_pieces);
    assert(seq![nameless].drop_last() =~= no_pieces);
    assert(seq![none].drop_last() =~= no_pieces);
    assert(pairs_map(no_pieces) == Map::<Seq<char>, Seq<char>>::empty());
    assert(pair_name(none) =~= none);
    assert(query_map(pair) =~= map![name => form_decoded(value)]);
    assert(query_map(name) =~= map![name => none]);
}

/// A value is decoded after every plus sign in it, and no other character, was made a
/// space; where its escapes are not UTF-8 it stays like that.
pub proof fn law_form_value(value: Seq<char>, spaced: Seq<char>)
    requires
        spaced.len() == value.len(),
        forall|i: int|
            0 <= i < value.len() ==> #[trigger] spaced[i] == if value[i] == '+' {
                ' '
            } else {
                value[i]
            },
    ensures
        url_decoded(spaced) matches Some(text) ==> form_decoded(value) == text,
        url_decoded(spaced) is None ==> form_decoded(value) == spaced,
{
    assert(plus_as_space(value) =~= spaced);
}

} // verus!
