//! What the callback server answers to the browser.

use crate::text::{decimal, decimal_text, join3, to_chars};
use vstd::prelude::*;
use vstd::utf8::encode_utf8;

verus! {

/// The answer to a request that is no callback.
pub const NOT_FOUND: &'static str = "HTTP/1.1 404 Not Found\r\nContent-Length: 0\r\n\r\n";

/// The answer to a callback that lacks what it has to bring.
pub const BAD_REQUEST: &'static str = "HTTP/1.1 400 Bad Request\r\nContent-Length: 0\r\n\r\n";

/// The page that is shown after a sign-in.
pub const SUCCESS_BODY: &'static str = "<html><head><meta charset='utf-8'><title>登录成功</title></head>\
    <body style='font-family:sans-serif;text-align:center;padding:60px'>\
    <h2>&#10003; 登录成功</h2>\
    <p>Token 已更新，请返回 Kiro Admin UI。</p>\
    <p style='color:#888;font-size:13px'>此标签页可以关闭。</p>\
    </body></html>";

/// The page that is shown after a failure, up to the message.
pub const ERROR_BODY_HEAD: &'static str = "<html><head><meta charset='utf-8'><title>登录失败</title></head>\
    <body style='font-family:sans-serif;text-align:center;padding:60px'>\
    <h2>&#10007; 登录失败</h2><p>";

/// The page that is shown after a failure, behind the message.
pub const ERROR_BODY_TAIL: &'static str = "</p>\
    <p style='color:#888;font-size:13px'>请关闭此标签页并重试。</p>\
    </body></html>";

/// How a character of a text is written in HTML.
pub open spec fn escaped_char(c: char) -> Seq<char> {
    if c == '&' {
        "&amp;"@
    } else if c == '<' {
        "&lt;"@
    } else if c == '>' {
        "&gt;"@
    } else if c == '"' {
        "&quot;"@
    } else {
        seq![c]
    }
}

/// How a text is written in HTML, character by character.
pub open spec fn escaped(s: Seq<char>) -> Seq<char>
    decreases s.len(),
{
    if s.len() == 0 {
        Seq::empty()
    } else {
        escaped(s.drop_last()) + escaped_char(s.last())
    }
}

/// A response that carries a page of HTML and says how many bytes it has.
pub open spec fn page_response(body: Seq<char>) -> Seq<char> {
    "HTTP/1.1 200 OK\r\nContent-Type: text/html; charset=utf-8\r\nContent-Length: "@ + decimal(
        encode_utf8(body).len(),
    ) + "\r\nConnection: close\r\n\r\n"@ + body
}

/// The page that shows an error message.
pub open spec fn error_body(msg: Seq<char>) -> Seq<char> {
    ERROR_BODY_HEAD@ + escaped(msg) + ERROR_BODY_TAIL@
}

/// The response that sends the browser on to another address.
pub open spec fn redirect_response(url: Seq<char>) -> Seq<char> {
    "HTTP/1.1 302 Found\r\nLocation: "@ + url + "\r\nContent-Length: 0\r\nConnection: close\r\n\r\n"@
}

/// Writes a text so that HTML shows it as it is.
pub fn html_escape(s: &str) -> (r: String)
    ensures
        r@ == escaped(s@),
{
    let v = to_chars(s);
    let mut r = String::new();
    let mut i: usize = 0;
    while i < v.len()
        invariant
            v@ == s@,
            i <= v.len(),
            r@ == escaped(s@.take(i as int)),
        decreases v.len() - i,
    {
        let c: char = v[i];
        assert(s@.take(i + 1).drop_last() == s@.take(i as int));
        assert(s@.take(i + 1).last() == c);
        if c == '&' {
            r.append("&amp;");
        } else if c == '<' {
            r.append("&lt;");
        } else if c == '>' {
            r.append("&gt;");
        } else if c == '"' {
            r.append("&quot;");
        } else {
            r.push(c);
        }
        assert(r@ == escaped(s@.take(i + 1)));
        i += 1;
    }
    assert(s@.take(i as int) == s@);
    r
}

/// Puts a page of HTML into a response.
fn respond_with(body: &str) -> (r: String)
    ensures
        r@ == page_response(body@),
{
    let size = decimal_text(body.as_bytes().len());
    let mut r = join3(
        "HTTP/1.1 200 OK\r\nContent-Type: text/html; charset=utf-8\r\nContent-Length: ",
        size.as_str(),
        "\r\nConnection: close\r\n\r\n",
    );
    r.append(body);
    r
}

/// The response after a sign-in.
pub fn success_page() -> (r: String)
    ensures
        r@ == page_response(SUCCESS_BODY@),
{
    respond_with(SUCCESS_BODY)
}

/// The response after a failure, with its message.
pub fn error_page(msg: &str) -> (r: String)
    ensures
        r@ == page_response(error_body(msg@)),
{
    let body = join3(ERROR_BODY_HEAD, html_escape(msg).as_str(), ERROR_BODY_TAIL);
    respond_with(body.as_str())
}

/// The response that sends the browser on to `url`.
pub fn redirect_page(url: &str) -> (r: String)
    ensures
        r@ == redirect_response(url@),
{
    join3(
        "HTTP/1.1 302 Found\r\nLocation: ",
        url,
        "\r\nContent-Length: 0\r\nConnection: close\r\n\r\n",
    )
}

/// A message cannot bring markup of its own into a page: in its written form no
/// `<`, no `>` and no `"` is left.
pub proof fn law_escaped_has_no_markup(s: Seq<char>)
    ensures
        !escaped(s).contains('<'),
        !escaped(s).contains('>'),
        !escaped(s).contains('"'),
    decreases s.len(),
{
    if s.len() > 0 {
        law_escaped_has_no_markup(s.drop_last());
        reveal_strlit("&amp;");
        reveal_strlit("&lt;");
        reveal_strlit("&gt;");
        reveal_strlit("&quot;");
        let a = escaped(s.drop_last());
        let b = escaped_char(s.last());
        assert forall|i: int| 0 <= i < (a + b).len() implies (a + b)[i] != '<' && (a + b)[i] != '>'
            && (a + b)[i] != '"' by {
            if i < a.len() {
                assert(a.contains(a[i]));
            } else {
                assert((a + b)[i] == b[i - a.len()]);
            }
        }
    }
}

proof fn lemma_escaped_front(s: Seq<char>)
    requires
        s.len() > 0,
    ensures
        escaped(s) == escaped_char(s[0]) + escaped(s.drop_first()),
    decreases s.len(),
{
    if s.len() == 1 {
        assert(s.drop_last() =~= Seq::<char>::empty());
        assert(s.drop_first() =~= Seq::<char>::empty());
        assert(escaped(s.drop_last()) + escaped_char(s[0]) =~= escaped_char(s[0]) + escaped(
            s.drop_first(),
        ));
    } else {
        lemma_escaped_front(s.drop_last());
        assert(s.drop_last().drop_first() =~= s.drop_first().drop_last());
        assert(escaped(s) =~= escaped_char(s[0]) + escaped(s.drop_first()));
    }
}

/// Different texts are written differently, so the page shows the message itself.
pub proof fn law_escaped_is_injective(s: Seq<char>, t: Seq<char>)
    requires
        escaped(s) == escaped(t),
    ensures
        s == t,
    decreases s.len(),
{
    reveal_strlit("&amp;");
    reveal_strlit("&lt;");
    reveal_strlit("&gt;");
    reveal_strlit("&quot;");
    if s.len() > 0 {
        lemma_escaped_front(s);
    }
    if t.len() > 0 {
        lemma_escaped_front(t);
    }
    if s.len() == 0 || t.len() == 0 {
        assert(escaped_char(s[0]).len() > 0 && escaped_char(t[0]).len() > 0);
        assert(s =~= t);
    } else {
        let (a, b) = (escaped_char(s[0]), escaped_char(t[0]));
        assert(escaped(s)[0] == a[0]);
        assert(escaped(t)[0] == b[0]);
        if a.len() > 1 {
            assert(escaped(s)[1] == a[1]);
        }
        if b.len() > 1 {
            assert(escaped(t)[1] == b[1]);
        }
        assert(s[0] == t[0]);
        assert(escaped(s).skip(a.len() as int) =~= escaped(s.drop_first()));
        assert(escaped(t).skip(b.len() as int) =~= escaped(t.drop_first()));
        law_escaped_is_injective(s.drop_first(), t.drop_first());
        assert(s =~= seq![s[0]] + s.drop_first());
        assert(t =~= seq![t[0]] + t.drop_first());
    }
}

/// A text is written character by character: two texts one after the other are written
/// one after the other.
pub proof fn law_escaped_joins(s: Seq<char>, t: Seq<char>)
    ensures
        escaped(s + t) == escaped(s) + escaped(t),
    decreases t.len(),
{
    if t.len() == 0 {
        assert(s + t =~= s);
        assert(escaped(s) + escaped(t) =~= escaped(s));
    } else {
        law_escaped_joins(s, t.drop_last());
        assert((s + t).drop_last() =~= s + t.drop_last());
        assert(escaped(s + t) =~= escaped(s) + escaped(t));
    }
}

/// The four characters with a meaning in HTML are written by name, every other one as it
/// is.
pub proof fn law_escaped_characters(c: char)
    ensures
        escaped(seq!['&']) == "&amp;"@,
        escaped(seq!['<']) == "&lt;"@,
        escaped(seq!['>']) == "&gt;"@,
        escaped(seq!['"']) == "&quot;"@,
        c != '&' && c != '<' && c != '>' && c != '"' ==> escaped(seq![c]) == seq![c],
        escaped(Seq::<char>::empty()) == Seq::<char>::empty(),
{
    let none = Seq::<char>::empty();
    assert(escaped(none) == none);
    assert(seq!['&'].drop_last() =~= none);
    assert(seq!['<'].drop_last() =~= none);
    assert(seq!['>'].drop_last() =~= none);
    assert(seq!['"'].drop_last() =~= none);
    assert(seq![c].drop_last() =~= none);
    assert(escaped(seq!['&']) =~= "&amp;"@);
    assert(escaped(seq!['<']) =~= "&lt;"@);
    assert(escaped(seq!['>']) =~= "&gt;"@);
    assert(escaped(seq!['"']) =~= "&quot;"@);
    assert(c != '&' && c != '<' && c != '>' && c != '"' ==> escaped(seq![c]) =~= seq![c]);
}

/// A page is answered with status 200, as HTML in UTF-8, with its length in bytes, over
/// a connection that is closed behind it, and it ends the response.
pub proof fn law_page_response(body: Seq<char>)
    ensures
        page_response(body)
            == "HTTP/1.1 200 OK\r\nContent-Type: text/html; charset=utf-8\r\nContent-Length: "@
            + decimal(encode_utf8(body).len()) + "\r\nConnection: close\r\n\r\n"@ + body,
{
}

/// A redirect is answered with status 302 and nothing but the address to go on to.
pub proof fn law_redirect_response(url: Seq<char>)
    ensures
        redirect_response(url) == "HTTP/1.1 302 Found\r\nLocation: "@ + url
            + "\r\nContent-Length: 0\r\nConnection: close\r\n\r\n"@,
{
}

/// The page for a failure shows the message between a head and a tail that are the same
/// for every message.
pub proof fn law_error_page_shows_the_message(msg: Seq<char>)
    ensures
        error_body(msg) == ERROR_BODY_HEAD@ + escaped(msg) + ERROR_BODY_TAIL@,
{
}

/// The two answers without a page.
pub proof fn law_short_answers()
    ensures
        NOT_FOUND@ == "HTTP/1.1 404 Not Found\r\nContent-Length: 0\r\n\r\n"@,
        BAD_REQUEST@ == "HTTP/1.1 400 Bad Request\r\nContent-Length: 0\r\n\r\n"@,
{
}

} // verus!
