//! The request of a browser, as far as the callback server reads it.

use crate::text::{
    begins_with, find_char, finishes_with, first_index, lemma_first_index, lemma_first_index_unique,
    opt_view, to_chars,
};
use vstd::prelude::*;

verus! {

/// The first line of a text: what stands before the first line feed, without a
/// carriage return in front of that line feed.
pub open spec fn first_line(text: Seq<char>) -> Seq<char> {
    let i = first_index(text, '\n');
    if 0 < i < text.len() && text[i - 1] == '\r' {
        text.take(i - 1)
    } else {
        text.take(i)
    }
}

/// The target in a request line: what stands between `GET ` and ` HTTP/1.1` or
/// ` HTTP/1.0`.
pub open spec fn line_target(line: Seq<char>) -> Option<Seq<char>> {
    if !"GET "@.is_prefix_of(line) {
        None
    } else {
        let rest = line.skip(4);
        if " HTTP/1.1"@.is_suffix_of(rest) || " HTTP/1.0"@.is_suffix_of(rest) {
            Some(rest.take(rest.len() - 9))
        } else {
            None
        }
    }
}

/// The target of a request that is a `GET`.
pub open spec fn get_target(text: Seq<char>) -> Option<Seq<char>> {
    line_target(first_line(text))
}

/// The first line of a text.
pub fn take_first_line<'a>(text: &'a str) -> (r: &'a str)
    ensures
        r@ == first_line(text@),
{
    let v = to_chars(text);
    let i: usize = find_char(text, '\n');
    if 0 < i && i < v.len() && v[i - 1] == '\r' {
        text.substring_char(0, i - 1)
    } else {
        text.substring_char(0, i)
    }
}

/// The target of a request that is a `GET`.
pub fn request_target<'a>(text: &'a str) -> (r: Option<&'a str>)
    ensures
        opt_view(r) == get_target(text@),
{
    proof {
        reveal_strlit("GET ");
        reveal_strlit(" HTTP/1.1");
        reveal_strlit(" HTTP/1.0");
    }
    let line = take_first_line(text);
    if !begins_with(line, "GET ") {
        return None;
    }
    let rest = line.substring_char(4, line.unicode_len());
    assert(rest@ == line@.skip(4));
    if finishes_with(rest, " HTTP/1.1") || finishes_with(rest, " HTTP/1.0") {
        let n: usize = rest.unicode_len();
        Some(rest.substring_char(0, n - 9))
    } else {
        None
    }
}

/// A request line that is written for a target without line feeds is read back as
/// that target, whatever headers follow.
pub proof fn law_request_reads_back(target: Seq<char>, headers: Seq<char>)
    requires
        !target.contains('\n'),
    ensures
        get_target("GET "@ + target + " HTTP/1.1\r\n"@ + headers) == Some(target),
        get_target("GET "@ + target + " HTTP/1.0\r\n"@ + headers) == Some(target),
{
    lemma_reads_back(target, headers, " HTTP/1.1"@, " HTTP/1.1\r\n"@);
    lemma_reads_back(target, headers, " HTTP/1.0"@, " HTTP/1.0\r\n"@);
}

proof fn lemma_reads_back(target: Seq<char>, headers: Seq<char>, version: Seq<char>, end: Seq<char>)
    requires
        !target.contains('\n'),
        version == " HTTP/1.1"@ && end == " HTTP/1.1\r\n"@ || version == " HTTP/1.0"@ && end
            == " HTTP/1.0\r\n"@,
    ensures
        get_target("GET "@ + target + end + headers) == Some(target),
{
    reveal_strlit("GET ");
    reveal_strlit(" HTTP/1.1");
    reveal_strlit(" HTTP/1.0");
    reveal_strlit(" HTTP/1.1\r\n");
    reveal_strlit(" HTTP/1.0\r\n");
    let text = "GET "@ + target + end + headers;
    let n = target.len() as int;
    assert(end =~= version.push('\r').push('\n'));
    assert forall|j: int| 0 <= j < n + 14 implies text[j] != '\n' by {
        if 4 <= j < n + 4 {
            assert(text[j] == target[j - 4]);
            assert(target.contains(target[j - 4]));
        } else if j >= n + 4 {
            assert(text[j] == end[j - n - 4]);
        }
    }
    assert(text[n + 14] == end[10]);
    assert(text[n + 13] == end[9]);
    lemma_first_index_unique(text, '\n', n + 14);
    let line = first_line(text);
    assert(line =~= "GET "@ + target + version);
    assert(line.subrange(0, 4) =~= "GET "@);
    let rest = line.skip(4);
    assert(rest =~= target + version);
    assert(rest.subrange(n, n + 9) =~= version);
    assert(version.is_suffix_of(rest));
    assert(rest.take(n) =~= target);
}

/// The end of a request line: nothing more, or a line feed, with or without a carriage
/// return before it, and whatever follows.
pub open spec fn ends_line(rest: Seq<char>) -> bool {
    ||| rest.len() == 0
    ||| rest[0] == '\n'
    ||| rest.len() > 1 && rest[0] == '\r' && rest[1] == '\n'
}

/// A target is read from nothing but a `GET` of version 1.0 or 1.1, and is then all that
/// stands between the two.
pub proof fn law_only_get_requests_have_a_target(text: Seq<char>)
    ensures
        get_target(text) matches Some(target) ==> {
            let n = target.len() as int;
            &&& !target.contains('\n')
            &&& text.len() >= n + 13
            &&& text.take(4) == "GET "@
            &&& text.subrange(4, n + 4) == target
            &&& text.subrange(n + 4, n + 13) == " HTTP/1.1"@ || text.subrange(n + 4, n + 13)
                == " HTTP/1.0"@
            &&& ends_line(text.skip(n + 13))
        },
{
    reveal_strlit("GET ");
    reveal_strlit(" HTTP/1.1");
    reveal_strlit(" HTTP/1.0");
    if let Some(target) = get_target(text) {
        let n = target.len() as int;
        lemma_first_index(text, '\n');
        let i = first_index(text, '\n');
        let line = first_line(text);
        let rest = line.skip(4);
        assert(line.len() == n + 13);
        assert(line.subrange(0, 4) =~= text.take(4));
        assert(target =~= text.subrange(4, n + 4));
        assert(rest.subrange(n, n + 9) =~= text.subrange(n + 4, n + 13));
        if target.contains('\n') {
            let j = choose|j: int| 0 <= j < n && target[j] == '\n';
            assert(text[j + 4] == '\n');
        }
        let after = text.skip(n + 13);
        if after.len() > 0 {
            assert(after[0] == text[n + 13]);
            if after.len() > 1 {
                assert(after[1] == text[n + 14]);
            }
        }
    }
}

/// A request line is read back as its target, however the line ends.
pub proof fn law_request_line_reads_back(target: Seq<char>, rest: Seq<char>)
    requires
        !target.contains('\n'),
        ends_line(rest),
    ensures
        get_target("GET "@ + target + " HTTP/1.1"@ + rest) == Some(target),
        get_target("GET "@ + target + " HTTP/1.0"@ + rest) == Some(target),
{
    lemma_line_reads_back(target, rest, " HTTP/1.1"@);
    lemma_line_reads_back(target, rest, " HTTP/1.0"@);
}

proof fn lemma_line_reads_back(target: Seq<char>, rest: Seq<char>, version: Seq<char>)
    requires
        !target.contains('\n'),
        ends_line(rest),
        version == " HTTP/1.1"@ || version == " HTTP/1.0"@,
    ensures
        get_target("GET "@ + target + version + rest) == Some(target),
{
    reveal_strlit("GET ");
    reveal_strlit(" HTTP/1.1");
    reveal_strlit(" HTTP/1.0");
    let text = "GET "@ + target + version + rest;
    let n = target.len() as int;
    assert forall|j: int| 0 <= j < n + 13 implies text[j] != '\n' && text[j] == ("GET "@ + target
        + version)[j] by {
        if 4 <= j < n + 4 {
            assert(text[j] == target[j - 4]);
            assert(target.contains(target[j - 4]));
        } else if j >= n + 4 {
            assert(text[j] == version[j - n - 4]);
        }
    }
    if rest.len() > 0 {
        assert(text[n + 13] == rest[0]);
        if rest.len() > 1 {
            assert(text[n + 14] == rest[1]);
        }
    }
    assert(text[n + 12] == version[8]);
    if rest.len() == 0 || rest[0] == '\n' {
        lemma_first_index_unique(text, '\n', n + 13);
    } else {
        lemma_first_index_unique(text, '\n', n + 14);
    }
    let line = first_line(text);
    assert(line =~= "GET "@ + target + version);
    assert(line.subrange(0, 4) =~= "GET "@);
    let tail = line.skip(4);
    assert(tail =~= target + version);
    assert(tail.subrange(n, n + 9) =~= version);
    assert(version.is_suffix_of(tail));
    assert(tail.take(n) =~= target);
}

/// The first line of a text is what stands before the first line feed, or all of it;
/// of carriage returns, one right before the line feed belongs to it, and no other.
pub proof fn law_first_line(line: Seq<char>, rest: Seq<char>)
    requires
        !line.contains('\n'),
    ensures
        first_line(line) == line,
        first_line(line + seq!['\r', '\n'] + rest) == line,
        line.len() == 0 || line.last() != '\r' ==> first_line(line + seq!['\n'] + rest) == line,
{
    let n = line.len() as int;
    let plain = line + seq!['\n'] + rest;
    let returned = line + seq!['\r', '\n'] + rest;
    assert forall|j: int| 0 <= j < n implies line[j] != '\n' && plain[j] == line[j] && returned[j]
        == line[j] by {
        assert(line.contains(line[j]));
    }
    assert(returned[n] == '\r' && returned[n + 1] == '\n');
    assert(plain[n] == '\n');
    lemma_first_index_unique(line, '\n', n);
    lemma_first_index_unique(plain, '\n', n);
    lemma_first_index_unique(returned, '\n', n + 1);
    assert(line.take(n) =~= line);
    assert(plain.take(n) =~= line);
    assert(returned.take(n) =~= line);
}

} // verus!
