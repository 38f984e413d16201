use kiro_sso::bind::{callback_bind_host, next_port, trim_text, PortStep};
use kiro_sso::pages::{
    error_page, html_escape, redirect_page, success_page, ERROR_BODY_HEAD, ERROR_BODY_TAIL,
    SUCCESS_BODY,
};
use kiro_sso::query::{decode_form_value, parse_query_string, split_path_query};
use kiro_sso::request::{request_target, take_first_line};

#[test]
fn splits_targets() {
    assert_eq!(split_path_query("/a?b=c"), ("/a", "b=c"));
    assert_eq!(split_path_query("/a?b?c"), ("/a", "b?c"));
    assert_eq!(split_path_query("/a"), ("/a", ""));
    assert_eq!(split_path_query("/a?"), ("/a", ""));
    assert_eq!(split_path_query("?q"), ("", "q"));
    assert_eq!(split_path_query(""), ("", ""));
    assert_eq!(split_path_query("/é?ü"), ("/é", "ü"));
}

fn get(query: &str, name: &str) -> Option<String> {
    parse_query_string(query).get(name).cloned()
}

#[test]
fn reads_parameters() {
    let q = "code=abc&state=x%20y&empty=&flag&a=b=c";
    assert_eq!(get(q, "code"), Some("abc".to_string()));
    assert_eq!(get(q, "state"), Some("x y".to_string()));
    assert_eq!(get(q, "empty"), Some("".to_string()));
    assert_eq!(get(q, "flag"), Some("".to_string()));
    assert_eq!(get(q, "a"), Some("b=c".to_string()));
    assert_eq!(get(q, "missing"), None);
    assert_eq!(parse_query_string(q).len(), 5);
}

#[test]
fn later_parameters_win_and_nameless_ones_are_skipped() {
    assert_eq!(get("a=1&a=2", "a"), Some("2".to_string()));
    assert_eq!(parse_query_string("=x&&=").len(), 0);
    assert_eq!(parse_query_string("").len(), 0);
    // Names are not decoded.
    assert_eq!(get("a%20b=1", "a%20b"), Some("1".to_string()));
    assert_eq!(get("a%20b=1", "a b"), None);
}

#[test]
fn decodes_values() {
    assert_eq!(decode_form_value("a+b%2Bc"), "a b+c");
    assert_eq!(decode_form_value("%E4%BE%8B"), "例");
    assert_eq!(decode_form_value("100%"), "100%");
    assert_eq!(decode_form_value("%4"), "%4");
    assert_eq!(decode_form_value("%zz%41"), "%zzA");
    assert_eq!(decode_form_value("%2%26"), "%2&");
    assert_eq!(decode_form_value("%c3%A9"), "é");
    // Escapes that are not UTF-8 stay; the plus signs are spaces all the same.
    assert_eq!(decode_form_value("%FF+x"), "%FF x");
}

#[test]
fn reads_request_lines() {
    assert_eq!(request_target("GET /x?y=1 HTTP/1.1\r\nHost: a\r\n\r\n"), Some("/x?y=1"));
    assert_eq!(request_target("GET /x HTTP/1.0\n"), Some("/x"));
    assert_eq!(request_target("GET /x HTTP/1.1"), Some("/x"));
    assert_eq!(request_target("GET  HTTP/1.1\r\n"), Some(""));
    assert_eq!(request_target("GET a b HTTP/1.1\r\n"), Some("a b"));
    assert_eq!(request_target("POST /x HTTP/1.1\r\n"), None);
    assert_eq!(request_target("GET /x HTTP/2\r\n"), None);
    assert_eq!(request_target("GET /x HTTP/1.1\r"), None);
    assert_eq!(request_target("get /x HTTP/1.1\r\n"), None);
    assert_eq!(request_target("GET HTTP/1.1\r\n"), None);
    assert_eq!(request_target(""), None);
}

#[test]
fn first_lines() {
    for (text, line) in [
        ("a\r\nb", "a"),
        ("a\nb", "a"),
        ("\r\nb", ""),
        ("\nb", ""),
        ("a\r", "a\r"),
        ("a\r\r\n", "a\r"),
        ("", ""),
    ] {
        assert_eq!(take_first_line(text), line);
        assert_eq!(take_first_line(text), text.lines().next().unwrap_or(""));
    }
}

#[test]
fn escapes_html() {
    assert_eq!(html_escape("a<b>&\"c\"'"), "a&lt;b&gt;&amp;&quot;c&quot;'");
    assert_eq!(html_escape("&lt;"), "&amp;lt;");
    assert_eq!(html_escape("成功"), "成功");
    assert_eq!(html_escape(""), "");
}

#[test]
fn success_response() {
    let page = success_page();
    assert!(page.starts_with(
        "HTTP/1.1 200 OK\r\nContent-Type: text/html; charset=utf-8\r\nContent-Length: 299\r\nConnection: close\r\n\r\n<html>"
    ));
    assert!(page.ends_with(SUCCESS_BODY));
    assert_eq!(
        SUCCESS_BODY,
        "<html><head><meta charset='utf-8'><title>登录成功</title></head><body style='font-family:sans-serif;text-align:center;padding:60px'><h2>&#10003; 登录成功</h2><p>Token 已更新，请返回 Kiro Admin UI。</p><p style='color:#888;font-size:13px'>此标签页可以关闭。</p></body></html>"
    );
}

#[test]
fn error_response() {
    let page = error_page("a<b>&\"c\"'");
    let body = format!("{}a&lt;b&gt;&amp;&quot;c&quot;'{}", ERROR_BODY_HEAD, ERROR_BODY_TAIL);
    assert_eq!(
        page,
        format!(
            "HTTP/1.1 200 OK\r\nContent-Type: text/html; charset=utf-8\r\nContent-Length: 290\r\nConnection: close\r\n\r\n{}",
            body
        )
    );
    assert_eq!(
        body,
        "<html><head><meta charset='utf-8'><title>登录失败</title></head><body style='font-family:sans-serif;text-align:center;padding:60px'><h2>&#10007; 登录失败</h2><p>a&lt;b&gt;&amp;&quot;c&quot;'</p><p style='color:#888;font-size:13px'>请关闭此标签页并重试。</p></body></html>"
    );
}

#[test]
fn redirect_response() {
    assert_eq!(
        redirect_page("https://x/y"),
        "HTTP/1.1 302 Found\r\nLocation: https://x/y\r\nContent-Length: 0\r\nConnection: close\r\n\r\n"
    );
}

#[test]
fn bind_hosts() {
    assert_eq!(callback_bind_host(None), "127.0.0.1");
    assert_eq!(callback_bind_host(Some("")), "127.0.0.1");
    assert_eq!(callback_bind_host(Some(" \t\n")), "127.0.0.1");
    assert_eq!(callback_bind_host(Some(" 0.0.0.0 \n")), "0.0.0.0");
    assert_eq!(callback_bind_host(Some("\u{3000}host\u{a0}")), "host");
    for text in ["", " ", "a b", "\u{b}x\u{c}", "\u{1c}x", "\u{200b}x\u{2003}"] {
        assert_eq!(trim_text(text), text.trim());
    }
}

#[test]
fn ports_in_order() {
    let ports = [3128u16, 4649, 80];
    assert!(matches!(next_port(&ports, 0), PortStep::Try(3128)));
    assert!(matches!(next_port(&ports, 2), PortStep::Try(80)));
    match next_port(&ports, 3) {
        PortStep::Exhausted(message) => {
            assert_eq!(message, format!("Kiro SSO 回调端口均被占用 {:?}", ports))
        }
        PortStep::Try(_) => panic!("no port is left"),
    }
    match next_port(&[], 0) {
        PortStep::Exhausted(message) => assert_eq!(message, "Kiro SSO 回调端口均被占用 []"),
        PortStep::Try(_) => panic!("no port is left"),
    }
}

#[test]
fn white_space_characters() {
    let spaces = [
        '\t', '\n', '\u{b}', '\u{c}', '\r', ' ', '\u{85}', '\u{a0}', '\u{1680}', '\u{2000}', '\u{2001}',
        '\u{2002}', '\u{2003}', '\u{2004}', '\u{2005}', '\u{2006}', '\u{2007}', '\u{2008}', '\u{2009}',
        '\u{200a}', '\u{2028}', '\u{2029}', '\u{202f}', '\u{205f}', '\u{3000}',
    ];
    for c in '\0'..=char::MAX {
        assert_eq!(trim_text(&c.to_string()).is_empty(), spaces.contains(&c), "{:?}", c);
    }
}
