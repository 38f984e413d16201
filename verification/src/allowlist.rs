//! Which URLs of an external identity provider are trusted.

use crate::error::{SsoError, SsoErrorView};
use crate::letter_case::{
    ascii_lowercase, ascii_uppercase, lemma_lower_index, lemma_lower_lower, lemma_lower_pieces,
    lemma_lower_scheme, lemma_lower_trim_end, lemma_lower_trim_start, lemma_upper_lower,
    small_letters,
};
use crate::text::{
    cut_before, cut_end, cut_start, decimal, decimal_text, decimal_value, find_text,
    finishes_with, first_index, first_match, law_first_match, law_pieces, law_trim_end,
    law_trim_start, law_up_to, lemma_decimal, lemma_first_index, lemma_first_index_unique,
    lemma_first_match, lemma_first_match_unique, lemma_trim_end, lemma_trim_start, opt_view, pieces,
    result_view, run_of, same_text, split_on, to_chars, trim_end, trim_start, up_to, views,
};
use vstd::prelude::*;

verus! {

/// The domains, each with its leading dot, under which an identity provider may be.
pub open spec fn allowed_suffixes() -> Seq<Seq<char>> {
    seq![".microsoftonline.com"@, ".microsoftonline.us"@, ".microsoftonline.cn"@]
}

/// The domains, each with its leading dot, under which an identity provider may be.
pub fn allowed_issuer_suffixes() -> (v: Vec<String>)
    ensures
        views(v@) == allowed_suffixes(),
{
    let mut v: Vec<String> = Vec::new();
    v.push(".microsoftonline.com".to_owned());
    v.push(".microsoftonline.us".to_owned());
    v.push(".microsoftonline.cn".to_owned());
    assert(views(v@) =~= allowed_suffixes());
    v
}

/// What follows the first `://` of a URL.
pub open spec fn after_scheme(url: Seq<char>) -> Option<Seq<char>> {
    match first_match(url, "://"@) {
        Some(i) => Some(url.skip(i + 3)),
        None => None,
    }
}

/// The host of a URL: what stands between the `://` and the next `/` or `:`.
pub open spec fn host_of(url: Seq<char>) -> Option<Seq<char>> {
    match after_scheme(url) {
        Some(rest) => {
            let host = up_to(up_to(rest, '/'), ':');
            if host.len() == 0 {
                None
            } else {
                Some(host)
            }
        },
        None => None,
    }
}

/// A number below 256 in decimal notation, without leading zeros.
pub open spec fn is_octet(s: Seq<char>) -> bool {
    exists|n: nat| n < 256 && s == #[trigger] decimal(n)
}

/// An IPv4 address in dotted decimal notation.
pub open spec fn is_ipv4(s: Seq<char>) -> bool {
    let ps = pieces(s, '.');
    ps.len() == 4 && forall|i: int| 0 <= i < 4 ==> is_octet(#[trigger] ps[i])
}

/// Whether the host of a URL is an IP address, in brackets or not. A host ends
/// before the first colon, so it can only be an address of version 4.
pub open spec fn host_is_ip(url: Seq<char>) -> bool {
    match host_of(url) {
        Some(host) => is_ipv4(trim_end(trim_start(host, '['), ']')),
        None => false,
    }
}

/// A character that ends the authority of a URL: the beginning of its path, of its
/// query or of its fragment.
pub open spec fn ends_authority(c: char) -> bool {
    c == '/' || c == '?' || c == '#'
}

/// The authority in what follows the `://` of a URL.
pub open spec fn authority_part(rest: Seq<char>) -> Seq<char> {
    up_to(up_to(up_to(rest, '/'), '?'), '#')
}

/// A character that cannot stand in front of the `://` of a URL: a colon would end
/// the scheme early, and behind the others a path, a query or a fragment has begun.
pub open spec fn ends_scheme(c: char) -> bool {
    c == ':' || c == '\\' || ends_authority(c)
}

/// Whether a text can be the scheme in front of a `://`.
pub open spec fn is_scheme(s: Seq<char>) -> bool {
    forall|j: int| 0 <= j < s.len() ==> !ends_scheme(#[trigger] s[j])
}

/// The authority of a URL, if it has one: the host, and whatever user and port stand
/// beside it.
pub open spec fn authority_of(url: Seq<char>) -> Option<Seq<char>> {
    match first_match(url, "://"@) {
        Some(i) => if is_scheme(url.take(i)) {
            Some(authority_part(url.skip(i + 3)))
        } else {
            None
        },
        None => None,
    }
}

/// Whether a name ends with one of the allowed suffixes, in letters of either case.
///
/// The suffixes are in ASCII, and so is what matches them: of the characters outside
/// ASCII only the Kelvin sign and the dotted capital I have a small form with an ASCII
/// letter in it, `k` for the one, which no suffix has, and an `i` with a dot above
/// behind it for the other.
pub open spec fn under_allowed_domain(name: Seq<char>) -> bool {
    exists|i: int|
        0 <= i < allowed_suffixes().len() && (#[trigger] allowed_suffixes()[i]).is_suffix_of(
            ascii_lowercase(name),
        )
}

/// Whether a URL names a host under an allowed domain.
///
/// To some clients a backslash is a slash and ends the authority, to others it is part
/// of it. Both readings have to be under an allowed domain.
pub open spec fn authority_allowed(url: Seq<char>) -> bool {
    match authority_of(url) {
        Some(authority) => under_allowed_domain(authority) && under_allowed_domain(
            up_to(authority, '\\'),
        ),
        None => false,
    }
}

/// The verdict on a URL; `field` says where it came from.
pub open spec fn url_verdict(url: Seq<char>, field: Seq<char>) -> Result<(), SsoErrorView> {
    if host_is_ip(url) {
        Err(SsoErrorView::IpAddress { field })
    } else if !authority_allowed(url) {
        Err(SsoErrorView::NotAllowlisted { field })
    } else {
        Ok(())
    }
}

/// Whether a URL is trusted.
pub open spec fn url_trusted(url: Seq<char>) -> bool {
    !host_is_ip(url) && authority_allowed(url)
}

/// The rest of a URL behind the first `://`.
fn skip_scheme<'a>(url: &'a str) -> (r: Option<&'a str>)
    ensures
        opt_view(r) == after_scheme(url@),
{
    proof {
        reveal_strlit("://");
    }
    match find_text(url, "://") {
        Some(i) => {
            let n: usize = url.unicode_len();
            let rest = url.substring_char(i + 3, n);
            assert(rest@ == url@.skip(i + 3));
            Some(rest)
        },
        None => None,
    }
}

/// The host of a URL, if it has one.
pub fn extract_host(url: &str) -> (r: Option<String>)
    ensures
        opt_view(r) == host_of(url@),
{
    match skip_scheme(url) {
        Some(rest) => {
            let host = cut_before(cut_before(rest, '/'), ':');
            if host.is_empty() {
                None
            } else {
                Some(host.to_owned())
            }
        },
        None => None,
    }
}

/// Whether a text is a number below 256 in decimal notation.
fn octet(s: &str) -> (b: bool)
    ensures
        b == is_octet(s@),
{
    let v = to_chars(s);
    let n: usize = v.len();
    proof {
        if is_octet(s@) {
            let m = choose|m: nat| m < 256 && s@ == decimal(m);
            lemma_decimal(m);
        }
    }
    if n > 3 {
        return false;
    }
    let mut value: usize = 0;
    let mut i: usize = 0;
    while i < n
        invariant
            v@ == s@,
            n == v.len(),
            n <= 3,
            i <= n,
            value == decimal_value(s@.take(i as int)),
            i == 0 ==> value == 0,
            i == 1 ==> value < 10,
            i == 2 ==> value < 100,
            i == 3 ==> value < 1000,
            is_octet(s@) ==> forall|j: int| 0 <= j < s@.len() ==> '0' <= #[trigger] s@[j] <= '9',
        decreases n - i,
    {
        let c: char = v[i];
        if c < '0' || c > '9' {
            assert(s@[i as int] == c);
            return false;
        }
        assert(s@.take(i + 1).drop_last() == s@.take(i as int));
        assert(s@.take(i + 1).last() == c);
        value = value * 10 + (c as u32 - 48) as usize;
        i += 1;
    }
    assert(s@.take(i as int) == s@);
    value < 256 && same_text(decimal_text(value).as_str(), s)
}

/// Whether a text is an IPv4 address in dotted decimal notation.
pub fn ipv4_literal(s: &str) -> (b: bool)
    ensures
        b == is_ipv4(s@),
{
    let parts = split_on(s, '.');
    if parts.len() != 4 {
        return false;
    }
    let b0 = octet(parts[0]);
    let b1 = octet(parts[1]);
    let b2 = octet(parts[2]);
    let b3 = octet(parts[3]);
    let ghost ps = pieces(s@, '.');
    assert(parts@[0]@ == ps[0] && parts@[1]@ == ps[1] && parts@[2]@ == ps[2] && parts@[3]@ == ps[3]);
    b0 && b1 && b2 && b3
}

/// Whether a text can be the scheme of a URL.
fn scheme_text(s: &str) -> (b: bool)
    ensures
        b == is_scheme(s@),
{
    let v = to_chars(s);
    let mut i: usize = 0;
    while i < v.len()
        invariant
            v@ == s@,
            i <= v.len(),
            forall|j: int| 0 <= j < i ==> !ends_scheme(#[trigger] s@[j]),
        decreases v.len() - i,
    {
        let c: char = v[i];
        if c == ':' || c == '/' || c == '?' || c == '#' || c == '\\' {
            assert(s@[i as int] == c);
            return false;
        }
        i += 1;
    }
    true
}

/// The authority of a URL, if it has one.
pub fn extract_authority<'a>(url: &'a str) -> (r: Option<&'a str>)
    ensures
        opt_view(r) == authority_of(url@),
{
    proof {
        reveal_strlit("://");
    }
    match find_text(url, "://") {
        Some(i) => {
            if !scheme_text(url.substring_char(0, i)) {
                return None;
            }
            let n: usize = url.unicode_len();
            let rest = url.substring_char(i + 3, n);
            assert(rest@ == url@.skip(i + 3));
            Some(cut_before(cut_before(cut_before(rest, '/'), '?'), '#'))
        },
        None => None,
    }
}

/// Whether a name ends with one of the allowed suffixes, in letters of either case.
fn domain_is_allowed(name: &str) -> (b: bool)
    ensures
        b == under_allowed_domain(name@),
{
    let lower = small_letters(name);
    let suffixes = allowed_issuer_suffixes();
    let ghost all = allowed_suffixes();
    let mut i: usize = 0;
    while i < suffixes.len()
        invariant
            i <= suffixes.len(),
            all == allowed_suffixes(),
            views(suffixes@) == all,
            lower@ == ascii_lowercase(name@),
            forall|j: int| 0 <= j < i ==> !(#[trigger] all[j]).is_suffix_of(lower@),
        decreases suffixes.len() - i,
    {
        assert(suffixes@[i as int]@ == all[i as int]);
        if finishes_with(lower.as_str(), suffixes[i].as_str()) {
            return true;
        }
        i += 1;
    }
    false
}

/// Whether a URL names a host under an allowed domain.
pub fn authority_is_allowed(url: &str) -> (b: bool)
    ensures
        b == authority_allowed(url@),
{
    match extract_authority(url) {
        Some(authority) => domain_is_allowed(authority) && domain_is_allowed(
            cut_before(authority, '\\'),
        ),
        None => false,
    }
}

/// Judges a URL; `field` says where it came from.
pub fn validate_url_against_allowlist(url: &str, field: &str) -> (r: Result<(), SsoError>)
    ensures
        result_view(r) == url_verdict(url@, field@),
        r is Ok <==> url_trusted(url@),
{
    if let Some(host) = extract_host(url) {
        if ipv4_literal(cut_end(cut_start(host.as_str(), '['), ']')) {
            return Err(SsoError::IpAddress { field: field.to_owned() });
        }
    }
    if !authority_is_allowed(url) {
        return Err(SsoError::NotAllowlisted { field: field.to_owned() });
    }
    Ok(())
}

/// Judges the URL of an issuer.
pub fn validate_external_idp_issuer(issuer_url: &str) -> (r: Result<(), SsoError>)
    ensures
        result_view(r) == url_verdict(issuer_url@, "issuer_url"@),
        r is Ok <==> url_trusted(issuer_url@),
{
    validate_url_against_allowlist(issuer_url, "issuer_url")
}

/// Judges the URL of a token endpoint.
pub fn validate_external_idp_endpoint(endpoint: &str) -> (r: Result<(), SsoError>)
    ensures
        result_view(r) == url_verdict(endpoint@, "token_endpoint"@),
        r is Ok <==> url_trusted(endpoint@),
{
    validate_url_against_allowlist(endpoint, "token_endpoint")
}

/// A host never holds a colon or a slash, so no IPv6 address is ever one.
pub proof fn law_host_is_one_name(url: Seq<char>)
    ensures
        host_of(url) matches Some(host) ==> host.len() > 0 && !host.contains(':')
            && !host.contains('/'),
{
    if let Some(rest) = after_scheme(url) {
        lemma_first_index(rest, '/');
        lemma_first_index(up_to(rest, '/'), ':');
    }
}

/// The authority reaches to the first character that ends one.
pub proof fn lemma_authority_part(rest: Seq<char>)
    ensures
        authority_part(rest).len() <= rest.len(),
        authority_part(rest) == rest.take(authority_part(rest).len() as int),
        authority_part(rest).len() < rest.len() ==> ends_authority(
            rest[authority_part(rest).len() as int],
        ),
        forall|j: int| 0 <= j < authority_part(rest).len() ==> !ends_authority(#[trigger] rest[j]),
{
    let a = up_to(rest, '/');
    let b = up_to(a, '?');
    let c = up_to(b, '#');
    lemma_first_index(rest, '/');
    lemma_first_index(a, '?');
    lemma_first_index(b, '#');
    let n = c.len() as int;
    assert(c =~= rest.take(n));
    assert forall|j: int| 0 <= j < n implies !ends_authority(#[trigger] rest[j]) by {
        assert(a[j] == rest[j] && b[j] == rest[j]);
    }
    if n < b.len() {
        assert(b[n] == rest[n]);
    } else if n < a.len() {
        assert(a[n] == rest[n]);
    }
}

/// Only one place can be the end of the authority.
pub proof fn lemma_authority_part_unique(rest: Seq<char>, n: int)
    requires
        0 <= n <= rest.len(),
        n < rest.len() ==> ends_authority(rest[n]),
        forall|j: int| 0 <= j < n ==> !ends_authority(#[trigger] rest[j]),
    ensures
        authority_part(rest) == rest.take(n),
{
    lemma_authority_part(rest);
    let m = authority_part(rest).len() as int;
    if m < n {
        assert(!ends_authority(rest[m]));
    } else if n < m {
        assert(!ends_authority(rest[n]));
    }
}

/// A trusted URL is a scheme, a `://`, an authority, and a rest that is empty or begins
/// with a slash, a question mark or a number sign. The authority holds none of these
/// three. It ends with the name of an allowed domain, and so does what stands in it
/// before the first backslash.
pub proof fn law_trusted_url_names_an_allowed_domain(url: Seq<char>)
    requires
        url_trusted(url),
    ensures
        ({
            let authority = authority_of(url)->0;
            let start = first_match(url, "://"@)->0 + 3;
            let end = start + authority.len();
            &&& is_scheme(url.take(start - 3))
            &&& url.subrange(start - 3, start) == "://"@
            &&& url.subrange(start, end) == authority
            &&& end == url.len() || end < url.len() && ends_authority(url[end])
            &&& forall|j: int|
                0 <= j < authority.len() ==> !ends_authority(#[trigger] authority[j])
            &&& under_allowed_domain(authority)
            &&& under_allowed_domain(up_to(authority, '\\'))
        }),
{
    reveal_strlit("://");
    lemma_first_match(url, "://"@);
    let start = first_match(url, "://"@)->0 + 3;
    let rest = url.skip(start);
    lemma_authority_part(rest);
    let authority = authority_part(rest);
    assert(url.subrange(start - 3, start) =~= url.skip(start - 3).subrange(0, 3));
    assert(url.subrange(start, start + authority.len()) =~= rest.take(authority.len() as int));
    assert forall|j: int| 0 <= j < authority.len() implies !ends_authority(
        #[trigger] authority[j],
    ) by {
        assert(authority[j] == rest[j]);
    }
}

/// In small letters a URL has the same authority in small letters.
proof fn lemma_lower_authority(url: Seq<char>)
    ensures
        authority_of(ascii_lowercase(url)) == (match authority_of(url) {
            Some(authority) => Some(ascii_lowercase(authority)),
            None => None,
        }),
{
    reveal_strlit("://");
    let low = ascii_lowercase(url);
    lemma_lower_scheme(url);
    lemma_first_match(url, "://"@);
    if let Some(i) = first_match(url, "://"@) {
        assert(is_scheme(low.take(i)) == is_scheme(url.take(i))) by {
            if is_scheme(url.take(i)) {
                assert forall|j: int| 0 <= j < i implies !ends_scheme(
                    #[trigger] low.take(i)[j],
                ) by {
                    assert(!ends_scheme(url.take(i)[j]));
                }
            }
            if is_scheme(low.take(i)) {
                assert forall|j: int| 0 <= j < i implies !ends_scheme(
                    #[trigger] url.take(i)[j],
                ) by {
                    assert(!ends_scheme(low.take(i)[j]));
                }
            }
        }
        let (rest, lrest) = (url.skip(i + 3), low.skip(i + 3));
        lemma_authority_part(rest);
        let n = authority_part(rest).len() as int;
        assert forall|j: int| 0 <= j < rest.len() implies ends_authority(#[trigger] lrest[j])
            == ends_authority(rest[j]) by {
            assert(lrest[j] == low[i + 3 + j] && rest[j] == url[i + 3 + j]);
        }
        assert forall|j: int| 0 <= j < n implies !ends_authority(#[trigger] lrest[j]) by {
            assert(!ends_authority(rest[j]));
        }
        if n < rest.len() {
            assert(ends_authority(lrest[n]));
        }
        lemma_authority_part_unique(lrest, n);
        assert(lrest.take(n) =~= ascii_lowercase(rest.take(n)));
    }
}

/// A number is written without letters.
proof fn lemma_lower_octet(s: Seq<char>)
    ensures
        is_octet(ascii_lowercase(s)) == is_octet(s),
{
    let low = ascii_lowercase(s);
    if is_octet(s) {
        let n = choose|n: nat| n < 256 && s == #[trigger] decimal(n);
        lemma_decimal(n);
        assert(low =~= s);
    }
    if is_octet(low) {
        let n = choose|n: nat| n < 256 && low == #[trigger] decimal(n);
        lemma_decimal(n);
        assert forall|j: int| 0 <= j < s.len() implies low[j] == s[j] by {
            assert('0' <= decimal(n)[j] <= '9');
        }
        assert(low =~= s);
    }
}

/// An address is written without letters.
proof fn lemma_lower_host_is_ip(url: Seq<char>)
    ensures
        host_is_ip(ascii_lowercase(url)) == host_is_ip(url),
{
    reveal_strlit("://");
    let low = ascii_lowercase(url);
    lemma_lower_scheme(url);
    lemma_first_match(url, "://"@);
    if let Some(i) = first_match(url, "://"@) {
        let rest = url.skip(i + 3);
        assert(low.skip(i + 3) =~= ascii_lowercase(rest));
        let a = up_to(rest, '/');
        lemma_lower_index(rest, '/');
        lemma_first_index(rest, '/');
        assert(up_to(ascii_lowercase(rest), '/') =~= ascii_lowercase(a));
        let host = up_to(a, ':');
        lemma_lower_index(a, ':');
        lemma_first_index(a, ':');
        assert(up_to(ascii_lowercase(a), ':') =~= ascii_lowercase(host));
        let b = trim_start(host, '[');
        lemma_lower_trim_start(host, '[');
        let c = trim_end(b, ']');
        lemma_lower_trim_end(b, ']');
        lemma_lower_pieces(c, '.');
        let (ps, lps) = (pieces(c, '.'), pieces(ascii_lowercase(c), '.'));
        assert forall|j: int| 0 <= j < ps.len() implies is_octet(#[trigger] ps[j]) == is_octet(
            lps[j],
        ) by {
            lemma_lower_octet(ps[j]);
            assert(lps[j] == ascii_lowercase(ps[j]));
        }
        if is_ipv4(c) {
            assert forall|j: int| 0 <= j < 4 implies is_octet(#[trigger] lps[j]) by {
                assert(is_octet(ps[j]));
            }
        }
        if is_ipv4(ascii_lowercase(c)) {
            assert forall|j: int| 0 <= j < 4 implies is_octet(#[trigger] ps[j]) by {
                assert(is_octet(lps[j]));
            }
        }
    }
}

/// A URL is under an allowed domain in small letters where it is so at all.
proof fn lemma_lower_authority_allowed(url: Seq<char>)
    ensures
        authority_allowed(ascii_lowercase(url)) == authority_allowed(url),
{
    lemma_lower_authority(url);
    if let Some(authority) = authority_of(url) {
        let low = ascii_lowercase(authority);
        let front = up_to(authority, '\\');
        lemma_first_index(authority, '\\');
        lemma_lower_index(authority, '\\');
        assert(up_to(low, '\\') =~= ascii_lowercase(front));
        lemma_lower_lower(authority);
        lemma_lower_lower(front);
    }
}

/// Letter case does not matter: two URLs that differ in it alone get the same verdict.
pub proof fn law_letter_case_does_not_matter(url: Seq<char>, other: Seq<char>, field: Seq<char>)
    requires
        ascii_lowercase(other) == ascii_lowercase(url),
    ensures
        url_verdict(other, field) == url_verdict(url, field),
        url_trusted(other) == url_trusted(url),
{
    lemma_lower_host_is_ip(url);
    lemma_lower_host_is_ip(other);
    lemma_lower_authority_allowed(url);
    lemma_lower_authority_allowed(other);
}

/// A URL gets the same verdict when its letters are made capital.
pub proof fn law_capital_letters_do_not_matter(url: Seq<char>, field: Seq<char>)
    ensures
        url_verdict(ascii_uppercase(url), field) == url_verdict(url, field),
        url_trusted(ascii_uppercase(url)) == url_trusted(url),
{
    lemma_upper_lower(url);
    law_letter_case_does_not_matter(url, ascii_uppercase(url), field);
}

/// Where a scheme without a colon comes first, the first `://` is the one behind it.
proof fn lemma_scheme_first(scheme: Seq<char>, rest: Seq<char>)
    requires
        !scheme.contains(':'),
    ensures
        first_match(scheme + "://"@ + rest, "://"@) == Some(scheme.len() as int),
        (scheme + "://"@ + rest).skip(scheme.len() as int + 3) == rest,
        (scheme + "://"@ + rest).take(scheme.len() as int) == scheme,
{
    reveal_strlit("://");
    let mark = "://"@;
    let url = scheme + mark + rest;
    let n = scheme.len() as int;
    assert forall|j: int| 0 <= j < n implies !mark.is_prefix_of(#[trigger] url.skip(j)) by {
        if mark.is_prefix_of(url.skip(j)) {
            assert(url.skip(j).subrange(0, 3)[0] == mark[0]);
            assert(scheme[j] == ':');
            assert(scheme.contains(scheme[j]));
        }
    }
    assert(url.skip(n).subrange(0, 3) =~= mark);
    lemma_first_match_unique(url, mark, n);
    assert(url.skip(n + 3) =~= rest);
    assert(url.take(n) =~= scheme);
}

/// Nothing behind the first slash after the host matters to the verdict.
pub proof fn law_path_does_not_matter(
    scheme: Seq<char>,
    host: Seq<char>,
    path: Seq<char>,
    field: Seq<char>,
)
    requires
        !scheme.contains(':'),
        !host.contains('/'),
    ensures
        ({
            let short = scheme + "://"@ + host;
            let long = scheme + "://"@ + host + "/"@ + path;
            &&& url_verdict(long, field) == url_verdict(short, field)
            &&& url_trusted(long) == url_trusted(short)
        }),
{
    reveal_strlit("://");
    reveal_strlit("/");
    let short = scheme + "://"@ + host;
    let long = scheme + "://"@ + host + "/"@ + path;
    let tail = host + "/"@ + path;
    assert(long =~= scheme + "://"@ + tail);
    lemma_scheme_first(scheme, host);
    lemma_scheme_first(scheme, tail);
    assert forall|j: int| 0 <= j < host.len() implies host[j] != '/' && tail[j] == host[j] by {
        assert(host.contains(host[j]));
    }
    lemma_first_index_unique(host, '/', host.len() as int);
    lemma_first_index_unique(tail, '/', host.len() as int);
    assert(up_to(host, '/') =~= host);
    assert(up_to(tail, '/') =~= host);
}

/// An address holds nothing but digits and dots.
proof fn lemma_octets_chars(s: Seq<char>)
    requires
        forall|i: int| 0 <= i < pieces(s, '.').len() ==> is_octet(#[trigger] pieces(s, '.')[i]),
    ensures
        forall|j: int| 0 <= j < s.len() ==> '0' <= #[trigger] s[j] <= '9' || s[j] == '.',
    decreases s.len(),
{
    let ps = pieces(s, '.');
    let i = first_index(s, '.');
    lemma_first_index(s, '.');
    let n = choose|n: nat| n < 256 && ps[0] == #[trigger] decimal(n);
    assert(is_octet(ps[0]));
    lemma_decimal(n);
    if i < s.len() {
        let rest = s.skip(i + 1);
        assert forall|k: int| 0 <= k < pieces(rest, '.').len() implies is_octet(
            #[trigger] pieces(rest, '.')[k],
        ) by {
            assert(ps[k + 1] == pieces(rest, '.')[k]);
        }
        lemma_octets_chars(rest);
        assert forall|j: int| 0 <= j < s.len() implies '0' <= #[trigger] s[j] <= '9' || s[j]
            == '.' by {
            if j < i {
                assert(s[j] == ps[0][j]);
            } else if j > i {
                assert(s[j] == rest[j - i - 1]);
            }
        }
    } else {
        assert(ps[0] == s);
    }
}

/// A host with a letter in it is no address.
proof fn lemma_letter_is_no_ip(host: Seq<char>, j: int)
    requires
        0 <= j < host.len(),
        'A' <= host[j] <= 'Z' || 'a' <= host[j] <= 'z',
    ensures
        !is_ipv4(trim_end(trim_start(host, '['), ']')),
{
    let b = trim_start(host, '[');
    let c = trim_end(b, ']');
    lemma_trim_start(host, '[');
    lemma_trim_end(b, ']');
    let k = host.len() - b.len();
    assert(b[j - k] == host[j]);
    if is_ipv4(c) {
        lemma_octets_chars(c);
        assert(c[j - k] == b[j - k]);
    }
}

/// Nothing behind the authority matters to whether a URL is trusted.
pub proof fn law_tail_does_not_matter(scheme: Seq<char>, authority: Seq<char>, tail: Seq<char>)
    requires
        !scheme.contains(':'),
        forall|j: int| 0 <= j < authority.len() ==> !ends_authority(#[trigger] authority[j]),
        tail.len() > 0,
        ends_authority(tail[0]),
    ensures
        url_trusted(scheme + "://"@ + authority + tail) == url_trusted(
            scheme + "://"@ + authority,
        ),
{
    reveal_strlit("://");
    reveal_strlit(".microsoftonline.com");
    reveal_strlit(".microsoftonline.us");
    reveal_strlit(".microsoftonline.cn");
    let short = scheme + "://"@ + authority;
    let long = short + tail;
    let n = authority.len() as int;
    let rest = authority + tail;
    assert(long =~= scheme + "://"@ + rest);
    lemma_scheme_first(scheme, authority);
    lemma_scheme_first(scheme, rest);
    lemma_authority_part_unique(authority, n);
    lemma_authority_part_unique(rest, n);
    assert(authority.take(n) =~= authority);
    assert(rest.take(n) =~= authority);
    let low = ascii_lowercase(authority);
    if is_scheme(scheme) && under_allowed_domain(authority) {
        let i = choose|i: int|
            0 <= i < allowed_suffixes().len() && (#[trigger] allowed_suffixes()[i]).is_suffix_of(
                low,
            );
        let suffix = allowed_suffixes()[i];
        let m = n - suffix.len() + 1;
        assert(suffix == ".microsoftonline.com"@ || suffix == ".microsoftonline.us"@ || suffix
            == ".microsoftonline.cn"@);
        assert(low.subrange(n - suffix.len(), n)[1] == suffix[1]);
        assert(low[m] == 'm');
        assert('A' <= authority[m] <= 'Z' || 'a' <= authority[m] <= 'z');
        lemma_first_index_unique(authority, '/', n);
        assert(up_to(authority, '/') =~= authority);
        let wide = up_to(rest, '/');
        lemma_first_index(rest, '/');
        assert(n <= wide.len()) by {
            if wide.len() < n {
                assert(rest[wide.len() as int] == authority[wide.len() as int]);
            }
        }
        lemma_first_index(authority, ':');
        lemma_first_index(wide, ':');
        let k = first_index(authority, ':');
        assert forall|j: int| 0 <= j < n implies wide[j] == authority[j] by {
            assert(wide[j] == rest[j]);
        }
        if k < n {
            lemma_first_index_unique(wide, ':', k);
            assert(wide.take(k) =~= authority.take(k));
        } else {
            lemma_letter_is_no_ip(up_to(authority, ':'), m);
            assert(first_index(wide, ':') >= n) by {
                if first_index(wide, ':') < n {
                    assert(authority[first_index(wide, ':')] == ':');
                }
            }
            lemma_letter_is_no_ip(up_to(wide, ':'), m);
        }
    }
}

/// The authority that is written into a URL is read from it, with whatever user and port
/// it holds, unless no scheme stands before it.
pub proof fn law_authority_reads_back(scheme: Seq<char>, authority: Seq<char>, tail: Seq<char>)
    requires
        !scheme.contains(':'),
        forall|j: int|
            0 <= j < authority.len() ==> #[trigger] authority[j] != '/' && authority[j] != '?'
                && authority[j] != '#',
        tail.len() == 0 || tail[0] == '/' || tail[0] == '?' || tail[0] == '#',
    ensures
        authority_of(scheme + "://"@ + authority + tail) == if is_scheme(scheme) {
            Some(authority)
        } else {
            None
        },
        is_scheme(scheme) <==> !scheme.contains('/') && !scheme.contains('?') && !scheme.contains(
            '#',
        ) && !scheme.contains('\\'),
{
    if is_scheme(scheme) {
        assert forall|j: int| 0 <= j < scheme.len() implies #[trigger] scheme[j] != '/' && scheme[j]
            != '?' && scheme[j] != '#' && scheme[j] != '\\' by {
            assert(!ends_scheme(scheme[j]));
        }
    } else {
        let j = choose|j: int| 0 <= j < scheme.len() && ends_scheme(#[trigger] scheme[j]);
        assert(scheme.contains(scheme[j]));
    }
    let url = scheme + "://"@ + authority + tail;
    let rest = authority + tail;
    let n = authority.len() as int;
    assert(url =~= scheme + "://"@ + rest);
    lemma_scheme_first(scheme, rest);
    assert forall|j: int| 0 <= j < n implies !ends_authority(#[trigger] rest[j]) by {
        assert(rest[j] == authority[j]);
    }
    if n < rest.len() {
        assert(rest[n] == tail[0]);
    }
    lemma_authority_part_unique(rest, n);
    assert(rest.take(n) =~= authority);
}

/// A URL is trusted where its host, in small letters, is under `.microsoftonline.com`,
/// `.microsoftonline.us` or `.microsoftonline.cn`, and only there. The host is all that
/// stands between the `://` and the path, the query or the fragment, if any.
pub proof fn law_domains_that_are_trusted(scheme: Seq<char>, host: Seq<char>, tail: Seq<char>)
    requires
        forall|j: int|
            0 <= j < scheme.len() ==> #[trigger] scheme[j] != ':' && scheme[j] != '/' && scheme[j]
                != '?' && scheme[j] != '#' && scheme[j] != '\\',
        forall|j: int|
            0 <= j < host.len() ==> #[trigger] host[j] != ':' && host[j] != '/' && host[j] != '?'
                && host[j] != '#' && host[j] != '\\',
        tail.len() == 0 || tail[0] == '/' || tail[0] == '?' || tail[0] == '#',
    ensures
        url_trusted(scheme + "://"@ + host + tail) <==> {
            ||| ".microsoftonline.com"@.is_suffix_of(ascii_lowercase(host))
            ||| ".microsoftonline.us"@.is_suffix_of(ascii_lowercase(host))
            ||| ".microsoftonline.cn"@.is_suffix_of(ascii_lowercase(host))
        },
{
    reveal_strlit(".microsoftonline.com");
    reveal_strlit(".microsoftonline.us");
    reveal_strlit(".microsoftonline.cn");
    let none = Seq::<char>::empty();
    let short = scheme + "://"@ + host;
    let long = short + tail;
    let n = host.len() as int;
    let low = ascii_lowercase(host);
    assert(short + none =~= short);
    assert(!scheme.contains(':'));
    assert(!host.contains('\\'));
    law_authority_reads_back(scheme, host, none);
    lemma_first_index_unique(host, '\\', n);
    lemma_first_index_unique(host, '/', n);
    lemma_first_index_unique(host, ':', n);
    assert(host.take(n) =~= host);
    if tail.len() > 0 {
        law_tail_does_not_matter(scheme, host, tail);
    } else {
        assert(long =~= short);
    }
    lemma_scheme_first(scheme, host);
    let all = allowed_suffixes();
    assert(all[0] == ".microsoftonline.com"@ && all[1] == ".microsoftonline.us"@ && all[2]
        == ".microsoftonline.cn"@);
    if under_allowed_domain(host) {
        let i = choose|i: int| 0 <= i < all.len() && (#[trigger] all[i]).is_suffix_of(low);
        let suffix = all[i];
        let m = n - suffix.len() + 1;
        assert(suffix == all[0] || suffix == all[1] || suffix == all[2]);
        assert(low.subrange(n - suffix.len(), n)[1] == suffix[1]);
        assert(low[m] == 'm');
        assert('A' <= host[m] <= 'Z' || 'a' <= host[m] <= 'z');
        lemma_letter_is_no_ip(host, m);
    }
    assert(all[0].is_suffix_of(low) || all[1].is_suffix_of(low) || all[2].is_suffix_of(low)
        <==> under_allowed_domain(host));
}

/// Whatever user or port stands in the authority of a trusted URL, it ends with the name
/// of an allowed domain; so does what stands before its first backslash. Its scheme holds
/// neither a slash nor a question mark, number sign or backslash.
pub proof fn law_authority_of_a_trusted_url(
    scheme: Seq<char>,
    front: Seq<char>,
    back: Seq<char>,
    tail: Seq<char>,
)
    requires
        !scheme.contains(':'),
        forall|j: int|
            0 <= j < front.len() ==> #[trigger] front[j] != '/' && front[j] != '?' && front[j]
                != '#' && front[j] != '\\',
        forall|j: int|
            0 <= j < back.len() ==> #[trigger] back[j] != '/' && back[j] != '?' && back[j] != '#',
        tail.len() == 0 || tail[0] == '/' || tail[0] == '?' || tail[0] == '#',
    ensures
        url_trusted(scheme + "://"@ + front + tail) ==> {
            ||| ".microsoftonline.com"@.is_suffix_of(ascii_lowercase(front))
            ||| ".microsoftonline.us"@.is_suffix_of(ascii_lowercase(front))
            ||| ".microsoftonline.cn"@.is_suffix_of(ascii_lowercase(front))
        },
        url_trusted(scheme + "://"@ + (front + seq!['\\'] + back) + tail) ==> {
            ||| ".microsoftonline.com"@.is_suffix_of(ascii_lowercase(front))
            ||| ".microsoftonline.us"@.is_suffix_of(ascii_lowercase(front))
            ||| ".microsoftonline.cn"@.is_suffix_of(ascii_lowercase(front))
        },
        url_trusted(scheme + "://"@ + (front + seq!['\\'] + back) + tail) ==> {
            ||| ".microsoftonline.com"@.is_suffix_of(ascii_lowercase(front + seq!['\\'] + back))
            ||| ".microsoftonline.us"@.is_suffix_of(ascii_lowercase(front + seq!['\\'] + back))
            ||| ".microsoftonline.cn"@.is_suffix_of(ascii_lowercase(front + seq!['\\'] + back))
        },
        url_trusted(scheme + "://"@ + front + tail) ==> !scheme.contains('/') && !scheme.contains(
            '?',
        ) && !scheme.contains('#') && !scheme.contains('\\'),
{
    let both = front + seq!['\\'] + back;
    assert forall|j: int| 0 <= j < both.len() implies #[trigger] both[j] != '/' && both[j] != '?'
        && both[j] != '#' by {
        if j < front.len() {
            assert(both[j] == front[j]);
        } else if j > front.len() {
            assert(both[j] == back[j - front.len() - 1]);
        }
    }
    law_authority_reads_back(scheme, front, tail);
    law_authority_reads_back(scheme, both, tail);
    law_up_to(front, '\\', back);
    let all = allowed_suffixes();
    assert(all[0] == ".microsoftonline.com"@ && all[1] == ".microsoftonline.us"@ && all[2]
        == ".microsoftonline.cn"@);
    assert forall|name: Seq<char>| #[trigger] under_allowed_domain(name) implies all[0].is_suffix_of(
        ascii_lowercase(name),
    ) || all[1].is_suffix_of(ascii_lowercase(name)) || all[2].is_suffix_of(
        ascii_lowercase(name),
    ) by {
        let i = choose|i: int|
            0 <= i < all.len() && (#[trigger] all[i]).is_suffix_of(ascii_lowercase(name));
        assert(i == 0 || i == 1 || i == 2);
    }
}

/// The verdict is a success for trusted URLs and no others, and a failure names the field
/// that the URL came from. Where the URL has no `://`, no domain is named.
pub proof fn law_verdicts(url: Seq<char>, field: Seq<char>)
    ensures
        url_verdict(url, field) is Ok <==> url_trusted(url),
        url_verdict(url, field) is Err ==> url_verdict(url, field) == Err::<(), SsoErrorView>(
            SsoErrorView::IpAddress { field },
        ) || url_verdict(url, field) == Err::<(), SsoErrorView>(
            SsoErrorView::NotAllowlisted { field },
        ),
        (forall|j: int| 0 <= j <= url.len() - 3 ==> #[trigger] url.subrange(j, j + 3) != "://"@)
            ==> url_verdict(url, field) == Err::<(), SsoErrorView>(
            SsoErrorView::NotAllowlisted { field },
        ),
{
    reveal_strlit("://");
    law_first_match(url, "://"@);
    if let Some(i) = first_match(url, "://"@) {
        assert(url.subrange(i, i + 3) == "://"@);
    }
}

/// The host of a URL reads back: it is what stands between the `://` and a slash or a
/// colon, if any.
pub proof fn law_host_reads_back(scheme: Seq<char>, host: Seq<char>, tail: Seq<char>)
    requires
        !scheme.contains(':'),
        !host.contains('/'),
        !host.contains(':'),
        tail.len() == 0 || tail[0] == '/' || tail[0] == ':',
    ensures
        host.len() > 0 ==> host_of(scheme + "://"@ + host + tail) == Some(host),
        host.len() == 0 ==> host_of(scheme + "://"@ + host + tail) is None,
{
    let url = scheme + "://"@ + host + tail;
    let rest = host + tail;
    let n = host.len() as int;
    assert(url =~= scheme + "://"@ + rest);
    lemma_scheme_first(scheme, rest);
    assert forall|j: int| 0 <= j < n implies rest[j] != '/' && rest[j] != ':' && rest[j]
        == host[j] by {
        assert(host.contains(host[j]));
    }
    lemma_first_index(rest, '/');
    let wide = up_to(rest, '/');
    assert(wide.len() >= n) by {
        if wide.len() < n {
            assert(rest[wide.len() as int] != '/');
        }
    }
    if wide.len() > n {
        assert(wide[n] == rest[n]);
        assert(rest[n] == tail[0]);
    }
    assert forall|j: int| 0 <= j < n implies wide[j] != ':' by {
        assert(wide[j] == rest[j]);
    }
    lemma_first_index_unique(wide, ':', n);
    assert(wide.take(n) =~= host);
}

/// A text with more than one piece is its first piece, a separator and the rest.
proof fn lemma_first_piece(s: Seq<char>, sep: char)
    requires
        pieces(s, sep).len() > 1,
    ensures
        ({
            let rest = s.skip(pieces(s, sep)[0].len() as int + 1);
            &&& s == pieces(s, sep)[0] + seq![sep] + rest
            &&& pieces(rest, sep) == pieces(s, sep).skip(1)
        }),
{
    lemma_first_index(s, sep);
    let i = first_index(s, sep);
    assert(s =~= s.take(i) + seq![sep] + s.skip(i + 1));
    assert(pieces(s, sep).skip(1) =~= pieces(s.skip(i + 1), sep));
}

/// Four numbers in decimal notation, with dots between them.
pub open spec fn dotted(a: nat, b: nat, c: nat, d: nat) -> Seq<char> {
    decimal(a) + seq!['.'] + (decimal(b) + seq!['.'] + (decimal(c) + seq!['.'] + decimal(d)))
}

/// An IPv4 address is four numbers below 256 in decimal notation with dots between them,
/// and nothing else is one.
pub proof fn law_addresses(s: Seq<char>, a: nat, b: nat, c: nat, d: nat)
    ensures
        a < 256 && b < 256 && c < 256 && d < 256 ==> is_ipv4(dotted(a, b, c, d)),
        is_ipv4(s) ==> exists|w: nat, x: nat, y: nat, z: nat|
            w < 256 && x < 256 && y < 256 && z < 256 && s == #[trigger] dotted(w, x, y, z),
{
    lemma_no_dot(a);
    lemma_no_dot(b);
    lemma_no_dot(c);
    lemma_no_dot(d);
    let three = decimal(c) + seq!['.'] + decimal(d);
    let two = decimal(b) + seq!['.'] + three;
    law_pieces(decimal(c), decimal(d), '.');
    law_pieces(decimal(d), decimal(d), '.');
    law_pieces(decimal(b), three, '.');
    law_pieces(decimal(a), two, '.');
    let all = seq![decimal(a), decimal(b), decimal(c), decimal(d)];
    assert(pieces(dotted(a, b, c, d), '.') =~= all);
    if a < 256 && b < 256 && c < 256 && d < 256 {
        assert forall|i: int| 0 <= i < 4 implies is_octet(#[trigger] all[i]) by {
            assert(is_octet(decimal(a)) && is_octet(decimal(b)) && is_octet(decimal(c))
                && is_octet(decimal(d)));
        }
    }
    if is_ipv4(s) {
        let ps = pieces(s, '.');
        assert(is_octet(ps[0]) && is_octet(ps[1]) && is_octet(ps[2]) && is_octet(ps[3]));
        let w = choose|n: nat| n < 256 && ps[0] == #[trigger] decimal(n);
        let x = choose|n: nat| n < 256 && ps[1] == #[trigger] decimal(n);
        let y = choose|n: nat| n < 256 && ps[2] == #[trigger] decimal(n);
        let z = choose|n: nat| n < 256 && ps[3] == #[trigger] decimal(n);
        lemma_first_piece(s, '.');
        let r1 = s.skip(ps[0].len() as int + 1);
        lemma_first_piece(r1, '.');
        let r2 = r1.skip(ps[1].len() as int + 1);
        lemma_first_piece(r2, '.');
        let r3 = r2.skip(ps[2].len() as int + 1);
        assert(pieces(r3, '.') =~= seq![ps[3]]);
        lemma_first_index(r3, '.');
        assert(pieces(r3.skip(first_index(r3, '.') + 1), '.').len() > 0);
        assert(pieces(r3, '.')[0] == r3);
        assert(s == dotted(w, x, y, z));
    }
}

proof fn lemma_no_dot(n: nat)
    ensures
        !decimal(n).contains('.'),
{
    lemma_decimal(n);
}

/// A URL whose host is an IPv4 address is refused for that, in brackets or not, with or
/// without a port and a path.
pub proof fn law_addresses_are_refused(
    scheme: Seq<char>,
    open: nat,
    a: nat,
    b: nat,
    c: nat,
    d: nat,
    close: nat,
    tail: Seq<char>,
    field: Seq<char>,
)
    requires
        !scheme.contains(':'),
        a < 256,
        b < 256,
        c < 256,
        d < 256,
        tail.len() == 0 || tail[0] == '/' || tail[0] == ':',
    ensures
        url_verdict(
            scheme + "://"@ + (run_of('[', open) + dotted(a, b, c, d) + run_of(']', close)) + tail,
            field,
        ) == Err::<(), SsoErrorView>(SsoErrorView::IpAddress { field }),
{
    let address = dotted(a, b, c, d);
    let host = run_of('[', open) + address + run_of(']', close);
    law_addresses(address, a, b, c, d);
    lemma_decimal(a);
    lemma_decimal(d);
    assert forall|i: int| 0 <= i < pieces(address, '.').len() implies is_octet(
        #[trigger] pieces(address, '.')[i],
    ) by {}
    lemma_octets_chars(address);
    let n = address.len() as int;
    assert(n > 0);
    assert(address[0] == decimal(a)[0]);
    assert(address[n - 1] == decimal(d)[decimal(d).len() - 1]);
    assert forall|j: int| 0 <= j < host.len() implies host[j] != '/' && host[j] != ':' by {
        if j < open {
            assert(host[j] == '[');
        } else if j < open + n {
            assert(host[j] == address[j - open]);
        } else {
            assert(host[j] == ']');
        }
    }
    law_host_reads_back(scheme, host, tail);
    assert(host =~= run_of('[', open) + (address + run_of(']', close)));
    assert((address + run_of(']', close))[0] == address[0]);
    law_trim_start(address + run_of(']', close), '[', open);
    law_trim_end(address, ']', close);
}

/// Only a URL whose host is an IPv4 address, in brackets or not, is refused for that.
pub proof fn law_only_addresses_are_refused_as_such(
    scheme: Seq<char>,
    host: Seq<char>,
    tail: Seq<char>,
    field: Seq<char>,
)
    requires
        !scheme.contains(':'),
        !host.contains('/'),
        !host.contains(':'),
        tail.len() == 0 || tail[0] == '/' || tail[0] == ':',
        url_verdict(scheme + "://"@ + host + tail, field) == Err::<(), SsoErrorView>(
            SsoErrorView::IpAddress { field },
        ),
    ensures
        exists|open: nat, a: nat, b: nat, c: nat, d: nat, close: nat|
            a < 256 && b < 256 && c < 256 && d < 256 && host == run_of('[', open) + #[trigger] dotted(
                a,
                b,
                c,
                d,
            ) + #[trigger] run_of(']', close) && #[trigger] run_of('[', open).len() == open,
{
    law_host_reads_back(scheme, host, tail);
    let inner = trim_start(host, '[');
    let address = trim_end(inner, ']');
    lemma_trim_start(host, '[');
    lemma_trim_end(inner, ']');
    law_addresses(address, 0, 0, 0, 0);
    let (w, x, y, z) = choose|w: nat, x: nat, y: nat, z: nat|
        w < 256 && x < 256 && y < 256 && z < 256 && address == #[trigger] dotted(w, x, y, z);
    let open = (host.len() - inner.len()) as nat;
    let close = (inner.len() - address.len()) as nat;
    assert(host =~= run_of('[', open) + dotted(w, x, y, z) + run_of(']', close)) by {
        assert forall|j: int| 0 <= j < host.len() implies host[j] == (run_of('[', open) + address
            + run_of(']', close))[j] by {
            if j >= open {
                assert(host[j] == inner[j - open]);
                if j - open < address.len() {
                    assert(inner[j - open] == address[j - open]);
                }
            }
        }
    }
    assert(run_of('[', open).len() == open);
}

} // verus!
