//! The e-mail address in an access token that is a JSON Web Token.

use crate::base64::{
    base64_char, base64_decode_url, base64_decoded, base64url, law_base64_round_trip,
    lemma_base64url_chars, pad_base64, padded,
};
use crate::outside::{json_text_members, parse_json, text_member};
use crate::text::{
    find_char, law_pieces, lemma_first_index, lemma_first_index_unique, lemma_pieces_join, opt_view,
    pieces, split_on,
};
use vstd::prelude::*;

verus! {

/// The second part of a token, between its first and its second dot.
pub open spec fn jwt_payload(token: Seq<char>) -> Option<Seq<char>> {
    let ps = pieces(token, '.');
    if ps.len() < 2 {
        None
    } else {
        Some(ps[1])
    }
}

/// The bytes that the second part of a token stands for.
pub open spec fn jwt_payload_bytes(token: Seq<char>) -> Option<Seq<u8>> {
    match jwt_payload(token) {
        Some(payload) => base64_decoded(padded(payload)),
        None => None,
    }
}

/// A text with an at sign in it.
pub open spec fn looks_like_email(s: Seq<char>) -> bool {
    s.contains('@')
}

/// The first of the candidates that looks like an e-mail address.
pub open spec fn first_email(candidates: Seq<Option<Seq<char>>>) -> Option<Seq<char>>
    decreases candidates.len(),
{
    if candidates.len() == 0 {
        None
    } else {
        match candidates[0] {
            Some(text) if looks_like_email(text) => Some(text),
            _ => first_email(candidates.drop_first()),
        }
    }
}

/// The value of a claim that is a string.
pub open spec fn claim(claims: Map<Seq<char>, Seq<char>>, name: Seq<char>) -> Option<Seq<char>> {
    if claims.contains_key(name) {
        Some(claims[name])
    } else {
        None
    }
}

/// The e-mail address among claims: `email`, or `preferred_username`, or `upn`.
pub open spec fn claimed_email(claims: Map<Seq<char>, Seq<char>>) -> Option<Seq<char>> {
    first_email(
        seq![claim(claims, "email"@), claim(claims, "preferred_username"@), claim(claims, "upn"@)],
    )
}

/// The e-mail address in a token.
pub open spec fn jwt_email(token: Seq<char>) -> Option<Seq<char>> {
    match jwt_payload_bytes(token) {
        Some(bytes) => match json_text_members(bytes) {
            Some(claims) => claimed_email(claims),
            None => None,
        },
        None => None,
    }
}

/// The texts of candidates.
pub open spec fn candidate_texts(v: Seq<Option<&str>>) -> Seq<Option<Seq<char>>> {
    v.map_values(|o: Option<&str>| opt_view(o))
}

/// Decodes the second part of a token.
pub fn decode_jwt_payload(token: &str) -> (r: Option<Vec<u8>>)
    ensures
        opt_view(r) == jwt_payload_bytes(token@),
{
    let parts = split_on(token, '.');
    if parts.len() < 2 {
        return None;
    }
    let payload = parts[1];
    assert(parts@[1]@ == pieces(token@, '.')[1]);
    base64_decode_url(pad_base64(payload).as_str())
}

/// Whether a text has an at sign in it.
fn has_at_sign(s: &str) -> (b: bool)
    ensures
        b == looks_like_email(s@),
{
    proof {
        lemma_first_index(s@, '@');
    }
    let i: usize = find_char(s, '@');
    i < s.unicode_len()
}

/// Picks the first candidate that looks like an e-mail address.
pub fn pick_email(candidates: &Vec<Option<&str>>) -> (r: Option<String>)
    ensures
        opt_view(r) == first_email(candidate_texts(candidates@)),
{
    let ghost all = candidate_texts(candidates@);
    let mut i: usize = 0;
    assert(all.skip(0) == all);
    while i < candidates.len()
        invariant
            i <= candidates.len(),
            all == candidate_texts(candidates@),
            first_email(all) == first_email(all.skip(i as int)),
        decreases candidates.len() - i,
    {
        assert(all.skip(i as int).drop_first() == all.skip(i + 1));
        assert(all.skip(i as int)[0] == all[i as int]);
        if let Some(text) = candidates[i] {
            if has_at_sign(text) {
                return Some(text.to_owned());
            }
        }
        i += 1;
    }
    None
}

/// Reads the e-mail address in a token: the first of the claims `email`,
/// `preferred_username` and `upn` that is a string and has an at sign in it.
pub fn extract_email_from_jwt(token: &str) -> (r: Option<String>)
    ensures
        opt_view(r) == jwt_email(token@),
{
    let bytes = match decode_jwt_payload(token) {
        Some(bytes) => bytes,
        None => return None,
    };
    let json = match parse_json(bytes.as_slice()) {
        Some(json) => json,
        None => return None,
    };
    let mut candidates: Vec<Option<&str>> = Vec::new();
    candidates.push(text_member(&json, "email"));
    candidates.push(text_member(&json, "preferred_username"));
    candidates.push(text_member(&json, "upn"));
    proof {
        let claims = json_text_members(bytes@)->0;
        assert(candidate_texts(candidates@) =~= seq![
            claim(claims, "email"@),
            claim(claims, "preferred_username"@),
            claim(claims, "upn"@),
        ]);
    }
    pick_email(&candidates)
}

/// An address that is picked has an at sign in it and is one of the candidates.
pub proof fn law_picked_email_is_a_candidate(candidates: Seq<Option<Seq<char>>>)
    ensures
        first_email(candidates) matches Some(email) ==> looks_like_email(email)
            && candidates.contains(Some(email)),
    decreases candidates.len(),
{
    if candidates.len() > 0 {
        let rest = candidates.drop_first();
        law_picked_email_is_a_candidate(rest);
        if let Some(email) = first_email(candidates) {
            if candidates[0] != Some(email) {
                let i = choose|i: int| 0 <= i < rest.len() && rest[i] == Some(email);
                assert(candidates[i + 1] == Some(email));
            }
        }
    }
}

/// The payload that was put into a token is what is read from it, whatever the
/// header without dots before it and the signature behind it.
pub proof fn law_jwt_payload_round_trip(header: Seq<char>, bytes: Seq<u8>, signature: Seq<char>)
    requires
        !header.contains('.'),
    ensures
        jwt_payload_bytes(header.push('.') + (base64url(bytes).push('.') + signature)) == Some(
            bytes,
        ),
{
    let payload = base64url(bytes);
    let tail = payload.push('.') + signature;
    lemma_base64url_chars(bytes);
    lemma_pieces_join(header, tail, '.');
    lemma_pieces_join(payload, signature, '.');
    assert forall|j: int| 0 <= j < header.len() implies header[j] != '.' by {
        assert(header.contains(header[j]));
    }
    lemma_first_index_unique(header, '.', header.len() as int);
    assert forall|j: int| 0 <= j < payload.len() implies payload[j] != '.' by {
        assert(base64_char(payload[j]));
    }
    lemma_first_index_unique(payload, '.', payload.len() as int);
    assert(pieces(header, '.') == seq![header]);
    assert(pieces(payload, '.') == seq![payload]);
    assert(pieces(header.push('.') + tail, '.')[1] == payload);
    law_base64_round_trip(bytes);
}

/// A claim that is a string with an at sign in it.
pub open spec fn names_an_address(claims: Map<Seq<char>, Seq<char>>, name: Seq<char>) -> bool {
    claims.contains_key(name) && claims[name].contains('@')
}

/// The claim `email` comes first, whatever the others hold; then `preferred_username`,
/// whatever `upn` holds; then `upn`. A claim without an at sign is passed over, and where
/// all three are, there is no address.
pub proof fn law_order_of_claims(claims: Map<Seq<char>, Seq<char>>)
    ensures
        names_an_address(claims, "email"@) ==> claimed_email(claims) == Some(claims["email"@]),
        !names_an_address(claims, "email"@) && names_an_address(claims, "preferred_username"@)
            ==> claimed_email(claims) == Some(claims["preferred_username"@]),
        !names_an_address(claims, "email"@) && !names_an_address(claims, "preferred_username"@)
            && names_an_address(claims, "upn"@) ==> claimed_email(claims) == Some(claims["upn"@]),
        !names_an_address(claims, "email"@) && !names_an_address(claims, "preferred_username"@)
            && !names_an_address(claims, "upn"@) ==> claimed_email(claims) is None,
{
    let all = seq![
        claim(claims, "email"@),
        claim(claims, "preferred_username"@),
        claim(claims, "upn"@),
    ];
    let (first, second) = (all[0], all[1]);
    assert(Seq::<Option<Seq<char>>>::empty() + seq![first] + all.skip(1) =~= all);
    law_first_email_wins(Seq::empty(), first, all.skip(1));
    if !names_an_address(claims, "email"@) {
        assert(seq![first] + seq![second] + all.skip(2) =~= all);
        law_first_email_wins(seq![first], second, all.skip(2));
        if !names_an_address(claims, "preferred_username"@) {
            assert(seq![first, second] + seq![all[2]] + Seq::empty() =~= all);
            law_first_email_wins(seq![first, second], all[2], Seq::empty());
        }
    }
}

/// The first candidate with an at sign is picked, whatever stands behind it; where there
/// is none, nothing is picked.
pub proof fn law_first_email_wins(
    before: Seq<Option<Seq<char>>>,
    candidate: Option<Seq<char>>,
    after: Seq<Option<Seq<char>>>,
)
    requires
        forall|i: int|
            0 <= i < before.len() ==> (#[trigger] before[i] matches Some(t) ==> !t.contains('@')),
    ensures
        candidate matches Some(t) && t.contains('@') ==> first_email(
            before + seq![candidate] + after,
        ) == candidate,
        (candidate matches Some(t) ==> !t.contains('@')) && after.len() == 0 ==> first_email(
            before + seq![candidate] + after,
        ) is None,
    decreases before.len(),
{
    let all = before + seq![candidate] + after;
    if before.len() > 0 {
        assert(all[0] == before[0]);
        assert(all.drop_first() =~= before.drop_first() + seq![candidate] + after);
        law_first_email_wins(before.drop_first(), candidate, after);
    } else {
        assert(all[0] == candidate);
        assert(all.drop_first() =~= after);
        assert(after.len() == 0 ==> first_email(after) is None);
    }
}

/// The address of a token is the first of the claims `email`, `preferred_username` and
/// `upn` with an at sign, among the claims of the JSON document that stands in Base64
/// between its first dot and its second, or its end.
pub proof fn law_address_of_a_token(
    header: Seq<char>,
    payload: Seq<char>,
    rest: Seq<char>,
    bytes: Seq<u8>,
    token: Seq<char>,
)
    requires
        !header.contains('.'),
        !payload.contains('.'),
        token == header + seq!['.'] + payload || token == header + seq!['.'] + payload + seq!['.']
            + rest,
        base64_decoded(padded(payload)) == Some(bytes),
    ensures
        jwt_payload_bytes(token) == Some(bytes),
        match json_text_members(bytes) {
            Some(claims) => {
                &&& names_an_address(claims, "email"@) ==> jwt_email(token) == Some(claims["email"@])
                &&& !names_an_address(claims, "email"@) && names_an_address(
                    claims,
                    "preferred_username"@,
                ) ==> jwt_email(token) == Some(claims["preferred_username"@])
                &&& !names_an_address(claims, "email"@) && !names_an_address(
                    claims,
                    "preferred_username"@,
                ) && names_an_address(claims, "upn"@) ==> jwt_email(token) == Some(claims["upn"@])
                &&& !names_an_address(claims, "email"@) && !names_an_address(
                    claims,
                    "preferred_username"@,
                ) && !names_an_address(claims, "upn"@) ==> jwt_email(token) is None
            },
            None => jwt_email(token) is None,
        },
{
    law_payload_of_a_token(header, payload, rest);
    if let Some(claims) = json_text_members(bytes) {
        law_order_of_claims(claims);
    }
}

/// The payload of a token is what stands between its first dot and its second, or its
/// end; a text without a dot has none. A token whose payload is no Base64 has neither
/// payload bytes nor an address.
pub proof fn law_payload_of_a_token(header: Seq<char>, payload: Seq<char>, rest: Seq<char>)
    requires
        !header.contains('.'),
        !payload.contains('.'),
    ensures
        jwt_payload(header + seq!['.'] + payload + seq!['.'] + rest) == Some(payload),
        jwt_payload(header + seq!['.'] + payload) == Some(payload),
        jwt_payload(header) is None,
        jwt_payload_bytes(header) is None,
        jwt_email(header) is None,
        base64_decoded(padded(payload)) is None ==> {
            &&& jwt_payload_bytes(header + seq!['.'] + payload) is None
            &&& jwt_payload_bytes(header + seq!['.'] + payload + seq!['.'] + rest) is None
            &&& jwt_email(header + seq!['.'] + payload) is None
            &&& jwt_email(header + seq!['.'] + payload + seq!['.'] + rest) is None
        },
{
    law_pieces(header, payload, '.');
    law_pieces(payload, rest, '.');
    let tail = payload + seq!['.'] + rest;
    law_pieces(header, tail, '.');
    assert(header + seq!['.'] + tail =~= header + seq!['.'] + payload + seq!['.'] + rest);
}

} // verus!
