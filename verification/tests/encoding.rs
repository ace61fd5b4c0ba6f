use vcurl::body::{encode_form_urlencoded, encode_multipart};
use vcurl::bytes::{dec_vec, hex_vec, lower_vec};
use vcurl::options::{validate, RawOptions};
use vcurl::request::build_request;
use vcurl::signing::{join_vec, lex_le_vec, sort_lex_vec, split_vec};

fn b(s: &str) -> Vec<u8> {
    s.as_bytes().to_vec()
}

fn raw(url: &str, method: &str) -> RawOptions {
    RawOptions {
        url: b(url),
        method: b(method),
        headers: Vec::new(),
        data: None,
        form: Vec::new(),
        user_agent: None,
        access_key: None,
        secret_key: None,
        auth_scheme: None,
        auth_via_url: false,
        auth_upload_policy: None,
        auth_upload_form: false,
        json: false,
        binary: false,
        form_urlencoded: false,
        content_md5: None,
        region: None,
        output: None,
    }
}

#[test]
fn decimal_rendering_exact() {
    assert_eq!(dec_vec(0), b("0"));
    assert_eq!(dec_vec(7), b("7"));
    assert_eq!(dec_vec(1_700_000_000), b("1700000000"));
    assert_eq!(dec_vec(u64::MAX), b("18446744073709551615"));
}

#[test]
fn hex_rendering_exact() {
    assert_eq!(hex_vec(0, 4), b("0000"));
    assert_eq!(hex_vec(0xdead_beef, 8), b("deadbeef"));
    assert_eq!(hex_vec(255, 2), b("ff"));
}

#[test]
fn ascii_lowercasing() {
    assert_eq!(lower_vec(&b("Content-TYPE")), b("content-type"));
    assert_eq!(lower_vec(&b("x{|}~")), b("x{|}~"));
}

#[test]
fn lexicographic_order_on_bytes() {
    assert!(lex_le_vec(&b("a"), &b("b")));
    assert!(lex_le_vec(&b("a"), &b("a")));
    assert!(lex_le_vec(&b("a"), &b("ab")));
    assert!(!lex_le_vec(&b("ab"), &b("a")));
    assert!(!lex_le_vec(&b("b"), &b("ab")));
}

#[test]
fn split_sort_join_query() {
    let parts = split_vec(&b("b=2&a=1&c=3"), b'&');
    assert_eq!(parts, vec![b("b=2"), b("a=1"), b("c=3")]);
    let sorted = sort_lex_vec(&parts);
    assert_eq!(sorted, vec![b("a=1"), b("b=2"), b("c=3")]);
    assert_eq!(join_vec(&sorted, b'&'), b("a=1&b=2&c=3"));
}

#[test]
fn split_keeps_empty_pieces() {
    assert_eq!(split_vec(&b("&a&"), b'&'), vec![b(""), b("a"), b("")]);
    assert_eq!(split_vec(&b(""), b'&'), vec![b("")]);
}

#[test]
fn urlencoded_form_body_exact() {
    let mut r = raw("https://example.com/", "POST");
    r.form = vec![b("name=Jane Doe"), b("tag=a&b")];
    r.form_urlencoded = true;
    let m = validate(r).expect("valid options");
    let d = build_request(&m, None, 1).expect("build");
    assert_eq!(d.body, b("name=Jane+Doe&tag=a%26b"));
    assert!(d
        .headers
        .iter()
        .any(|(n, v)| n == &b("Content-Type") && v == &b("application/x-www-form-urlencoded")));
}

#[test]
fn urlencoded_encoder_escapes_reserved_bytes() {
    let fields = vec![(b("k e/y"), b("v~l-e_x.z"))];
    assert_eq!(encode_form_urlencoded(&fields), b("k+e%2Fy=v~l-e_x.z"));
}

#[test]
fn multipart_form_body_exact() {
    let fields = vec![(b("f"), b("v"))];
    let expected = b(
        "--vcurlformboundary\r\nContent-Disposition: form-data; name=\"f\"\r\n\r\nv\r\n--vcurlformboundary--\r\n",
    );
    assert_eq!(encode_multipart(&fields), expected);
}

#[test]
fn multipart_is_default_form_encoding() {
    let mut r = raw("https://example.com/", "POST");
    r.form = vec![b("f=v")];
    let m = validate(r).expect("valid options");
    let d = build_request(&m, None, 1).expect("build");
    assert!(d.headers.iter().any(|(n, v)| n == &b("Content-Type")
        && v == &b("multipart/form-data; boundary=vcurlformboundary")));
    assert!(d.body.starts_with(b"--vcurlformboundary\r\n"));
    assert!(d.body.ends_with(b"--vcurlformboundary--\r\n"));
}

#[test]
fn form_field_without_equals_gets_empty_value() {
    let mut r = raw("https://example.com/", "POST");
    r.form = vec![b("lonely")];
    let m = validate(r).expect("valid options");
    assert_eq!(m.form_fields[0].0, b("lonely"));
    assert_eq!(m.form_fields[0].1, b(""));
}

#[test]
fn url_signing_appends_to_existing_query() {
    let mut r = raw("https://example.com/p?x=1", "GET");
    r.access_key = Some(b("AK"));
    r.secret_key = Some(b("SK"));
    r.auth_via_url = true;
    r.region = Some(b("r1"));
    let m = validate(r).expect("valid options");
    let d = build_request(&m, None, 1_700_000_000).expect("build");
    let url = String::from_utf8(d.url).unwrap();
    assert!(url.starts_with("https://example.com/p?x=1&AccessKeyId=AK&Timestamp=1700000000&Signature="));
}

#[test]
fn url_signing_creates_query_when_absent() {
    let mut r = raw("https://example.com/p", "GET");
    r.access_key = Some(b("AK"));
    r.secret_key = Some(b("SK"));
    r.auth_via_url = true;
    r.region = Some(b("r1"));
    let m = validate(r).expect("valid options");
    let d = build_request(&m, None, 1).expect("build");
    let url = String::from_utf8(d.url).unwrap();
    assert!(url.starts_with("https://example.com/p?AccessKeyId=AK&Timestamp=1&Signature="));
}
