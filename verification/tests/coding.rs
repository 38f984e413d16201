use kiro_sso::base64::{base64_decode_url, pad_base64};
use kiro_sso::jwt::{decode_jwt_payload, extract_email_from_jwt, pick_email};

const DIGITS: &[u8] = b"ABCDEFGHIJKLMNOPQRSTUVWXYZabcdefghijklmnopqrstuvwxyz0123456789-_";

fn base64url(bytes: &[u8]) -> String {
    let mut out = String::new();
    for group in bytes.chunks(3) {
        let mut word: u32 = 0;
        for i in 0..3 {
            word = word << 8 | *group.get(i).unwrap_or(&0) as u32;
        }
        for i in 0..group.len() + 1 {
            out.push(DIGITS[(word >> (18 - 6 * i) & 63) as usize] as char);
        }
    }
    out
}

fn token(payload: &str) -> String {
    format!("{}.{}.sig", base64url(b"{\"alg\":\"none\"}"), base64url(payload.as_bytes()))
}

#[test]
fn decodes_groups() {
    assert_eq!(base64_decode_url(""), Some(vec![]));
    assert_eq!(base64_decode_url("aGVsbG8="), Some(b"hello".to_vec()));
    assert_eq!(base64_decode_url("aGVsbA=="), Some(b"hell".to_vec()));
    assert_eq!(base64_decode_url("aGVs"), Some(b"hel".to_vec()));
    assert_eq!(base64_decode_url("-_-_"), Some(vec![0xfb, 0xff, 0xbf]));
    assert_eq!(base64_decode_url("+/+/"), Some(vec![0xfb, 0xff, 0xbf]));
}

#[test]
fn drops_an_incomplete_group() {
    assert_eq!(base64_decode_url("aGVsb"), Some(b"hel".to_vec()));
    assert_eq!(base64_decode_url("a"), Some(vec![]));
    assert_eq!(base64_decode_url("!!!"), Some(vec![]));
}

#[test]
fn refuses_what_is_no_digit() {
    assert_eq!(base64_decode_url("aGV!"), None);
    assert_eq!(base64_decode_url("=aaa"), None);
    assert_eq!(base64_decode_url("a=aa"), None);
    assert_eq!(base64_decode_url("aé a"), None);
    assert_eq!(base64_decode_url("aGVsaGV!"), None);
}

#[test]
fn padding_inside_a_text() {
    assert_eq!(base64_decode_url("aa=a"), Some(vec![0x69, 0x1a]));
    assert_eq!(base64_decode_url("QQ==QQ=="), Some(b"AA".to_vec()));
}

#[test]
fn pads_to_groups() {
    assert_eq!(pad_base64(""), "");
    assert_eq!(pad_base64("a"), "a");
    assert_eq!(pad_base64("aa"), "aa==");
    assert_eq!(pad_base64("aaa"), "aaa=");
    assert_eq!(pad_base64("aaaa"), "aaaa");
    assert_eq!(pad_base64("é"), "é==");
}

#[test]
fn base64_round_trip() {
    for n in 0..70usize {
        let bytes: Vec<u8> = (0..n).map(|i| (i * 37 + n) as u8).collect();
        assert_eq!(base64_decode_url(&pad_base64(&base64url(&bytes))), Some(bytes));
    }
}

#[test]
fn payload_round_trip() {
    let text = format!("header.{}.sig.more", base64url(b"any bytes\x00\xff"));
    assert_eq!(decode_jwt_payload(&text), Some(b"any bytes\x00\xff".to_vec()));
    assert_eq!(decode_jwt_payload("no dots"), None);
    assert_eq!(decode_jwt_payload("a.!!!!"), None);
    assert_eq!(decode_jwt_payload("a."), Some(vec![]));
}

#[test]
fn email_comes_first() {
    assert_eq!(
        extract_email_from_jwt("eyJhbGciOiJub25lIn0.eyJlbWFpbCI6ImFAYi5jIn0.c2ln"),
        Some("a@b.c".to_string())
    );
    assert_eq!(
        extract_email_from_jwt(&token("{\"upn\":\"u@x\",\"preferred_username\":\"p@x\",\"email\":\"e@x\"}")),
        Some("e@x".to_string())
    );
}

#[test]
fn email_falls_back() {
    assert_eq!(
        extract_email_from_jwt(&token("{\"email\":\"nobody\",\"preferred_username\":\"p@x\"}")),
        Some("p@x".to_string())
    );
    assert_eq!(
        extract_email_from_jwt(&token("{\"email\":5,\"preferred_username\":\"\",\"upn\":\"u@x\"}")),
        Some("u@x".to_string())
    );
    assert_eq!(
        extract_email_from_jwt(&token("{\"email\":\"one@x\",\"email\":\"two@x\"}")),
        Some("two@x".to_string())
    );
    assert_eq!(
        extract_email_from_jwt(&token("{\"email\":\"\\u00fcser@例え.jp\"}")),
        Some("üser@例え.jp".to_string())
    );
}

#[test]
fn no_email() {
    assert_eq!(extract_email_from_jwt(""), None);
    assert_eq!(extract_email_from_jwt("opaque-token"), None);
    assert_eq!(extract_email_from_jwt("a.!!!!.c"), None);
    assert_eq!(extract_email_from_jwt(&token("{\"email\":")), None);
    assert_eq!(extract_email_from_jwt(&token("[\"email\"]")), None);
    assert_eq!(extract_email_from_jwt(&token("{\"email\":\"a\",\"upn\":\"b\"}")), None);
    assert_eq!(extract_email_from_jwt(&token("{\"sub\":\"a@b\"}")), None);
    assert_eq!(extract_email_from_jwt(&token("{\"email\":[\"a@b\"]}")), None);
}

#[test]
fn picks_the_first_candidate_with_an_at_sign() {
    assert_eq!(pick_email(&vec![None, Some("x"), Some("a@b"), Some("c@d")]), Some("a@b".to_string()));
    assert_eq!(pick_email(&vec![None, Some("x"), Some("")]), None);
    assert_eq!(pick_email(&vec![Some("@")]), Some("@".to_string()));
}
