use vcurl::body::resolve_body;
use vcurl::errors::{BuildError, ResourceError, SigningError, ValidationError};
use vcurl::options::{validate, BodySource, ContentTypeHint, RawOptions};
use vcurl::request::build_request;

fn b(s: &str) -> Vec<u8> {
    s.as_bytes().to_vec()
}

fn raw(url: &str, method: &str) -> RawOptions {
    RawOptions {
        url: b(url),
        method: b(method),
        headers: Vec::new(),
        data: None,
        form: Vec::new(),
        user_agent: None,
        access_key: None,
        secret_key: None,
        auth_scheme: None,
        auth_via_url: false,
        auth_upload_policy: None,
        auth_upload_form: false,
        json: false,
        binary: false,
        form_urlencoded: false,
        content_md5: None,
        region: None,
        output: None,
    }
}

const TS: u64 = 1_700_000_000;

fn contains_sub(hay: &[u8], needle: &[u8]) -> bool {
    if needle.is_empty() {
        return true;
    }
    hay.windows(needle.len()).any(|w| w == needle)
}

#[test]
fn method_and_url_round_trip_unsigned() {
    let r = raw("https://example.com/path?x=1", "GET");
    let m = validate(r).expect("valid options");
    let d = build_request(&m, None, TS).expect("build");
    assert_eq!(d.method, b("GET"));
    assert_eq!(d.url, b("https://example.com/path?x=1"));
}

#[test]
fn round_trip_keeps_unusual_but_valid_urls() {
    let r = raw("http://h:8080", "DELETE");
    let m = validate(r).expect("valid options");
    let d = build_request(&m, None, TS).expect("build");
    assert_eq!(d.url, b("http://h:8080"));
    assert_eq!(d.method, b("DELETE"));
}

#[test]
fn data_and_form_conflict() {
    let mut r = raw("https://example.com/", "POST");
    r.data = Some(b("payload"));
    r.form = vec![b("a=b")];
    assert_eq!(validate(r).unwrap_err(), ValidationError::ConflictingBodySource);
}

#[test]
fn access_key_without_secret_key_fails() {
    let mut r = raw("https://example.com/", "GET");
    r.access_key = Some(b("AK"));
    assert_eq!(validate(r).unwrap_err(), ValidationError::IncompleteCredentials);
}

#[test]
fn secret_key_without_access_key_fails() {
    let mut r = raw("https://example.com/", "GET");
    r.secret_key = Some(b("SK"));
    assert_eq!(validate(r).unwrap_err(), ValidationError::IncompleteCredentials);
}

#[test]
fn invalid_method_rejected() {
    let r = raw("https://example.com/", "GE T");
    assert_eq!(validate(r).unwrap_err(), ValidationError::InvalidMethod);
}

#[test]
fn invalid_url_rejected() {
    let r = raw("not a url", "GET");
    assert_eq!(validate(r).unwrap_err(), ValidationError::InvalidUrl);
}

#[test]
fn explicit_content_type_beats_json_hint() {
    let mut r = raw("https://example.com/", "POST");
    r.json = true;
    r.headers = vec![b("Content-Type: text/plain")];
    let m = validate(r).expect("valid options");
    let d = build_request(&m, None, TS).expect("build");
    let cts: Vec<&(Vec<u8>, Vec<u8>)> = d
        .headers
        .iter()
        .filter(|(n, _)| n.to_ascii_lowercase() == b"content-type")
        .collect();
    assert_eq!(cts.len(), 1);
    assert_eq!(cts[0].1, b("text/plain"));
}

#[test]
fn header_without_space_after_colon() {
    let mut r = raw("https://example.com/", "GET");
    r.headers = vec![b("X-Test:value")];
    let m = validate(r).expect("valid options");
    assert_eq!(m.headers[0].0, b("X-Test"));
    assert_eq!(m.headers[0].1, b("value"));
}

#[test]
fn header_with_space_after_colon() {
    let mut r = raw("https://example.com/", "GET");
    r.headers = vec![b("X-Test: value")];
    let m = validate(r).expect("valid options");
    assert_eq!(m.headers[0].0, b("X-Test"));
    assert_eq!(m.headers[0].1, b("value"));
}

#[test]
fn header_without_colon_is_malformed() {
    let mut r = raw("https://example.com/", "GET");
    r.headers = vec![b("NoColon")];
    assert_eq!(
        validate(r).unwrap_err(),
        ValidationError::MalformedHeader(b("NoColon"))
    );
}

#[test]
fn unsigned_descriptor_ignores_region() {
    let mut r1 = raw("https://example.com/a?q=1", "PUT");
    r1.data = Some(b("body"));
    r1.user_agent = Some(b("agent/1.0"));
    let mut r2 = raw("https://example.com/a?q=1", "PUT");
    r2.data = Some(b("body"));
    r2.user_agent = Some(b("agent/1.0"));
    r2.region = Some(b("eu-west-1"));
    let m1 = validate(r1).expect("valid options");
    let m2 = validate(r2).expect("valid options");
    let d1 = build_request(&m1, None, TS).expect("build");
    let d2 = build_request(&m2, None, TS).expect("build");
    assert_eq!(d1.method, d2.method);
    assert_eq!(d1.url, d2.url);
    assert_eq!(d1.headers, d2.headers);
    assert_eq!(d1.body, d2.body);
}

#[test]
fn url_signing_takes_precedence_over_header_signing() {
    let mut r = raw("https://example.com/up?a=1", "POST");
    r.access_key = Some(b("AK"));
    r.secret_key = Some(b("SK"));
    r.auth_via_url = true;
    r.region = Some(b("r1"));
    r.auth_scheme = Some(b("SCHEME"));
    let m = validate(r).expect("valid options");
    let d = build_request(&m, None, TS).expect("build");
    assert!(contains_sub(&d.url, b"Signature="));
    assert!(contains_sub(&d.url, b"AccessKeyId=AK"));
    assert!(d
        .headers
        .iter()
        .all(|(n, _)| n.to_ascii_lowercase() != b"authorization"));
}

#[test]
fn pipeline_is_deterministic() {
    let mk = || {
        let mut r = raw("https://example.com/x?k=v", "POST");
        r.access_key = Some(b("AK"));
        r.secret_key = Some(b("SK"));
        r.region = Some(b("r1"));
        r.data = Some(b("payload"));
        r
    };
    let m1 = validate(mk()).expect("valid options");
    let m2 = validate(mk()).expect("valid options");
    let d1 = build_request(&m1, None, TS).expect("build");
    let d2 = build_request(&m2, None, TS).expect("build");
    assert_eq!(d1.method, d2.method);
    assert_eq!(d1.url, d2.url);
    assert_eq!(d1.headers, d2.headers);
    assert_eq!(d1.body, d2.body);
}

#[test]
fn post_json_literal_body_end_to_end() {
    let mut r = raw("https://example.com/x", "POST");
    r.json = true;
    r.data = Some(b("{\"a\":1}"));
    let m = validate(r).expect("valid options");
    let d = build_request(&m, None, TS).expect("build");
    assert_eq!(d.method, b("POST"));
    assert_eq!(d.body, b("{\"a\":1}"));
    let ct: Vec<&(Vec<u8>, Vec<u8>)> = d
        .headers
        .iter()
        .filter(|(n, _)| n.to_ascii_lowercase() == b"content-type")
        .collect();
    assert_eq!(ct.len(), 1);
    assert_eq!(ct[0].1, b("application/json"));
}

#[test]
fn file_body_without_contents_is_unreadable() {
    let mut r = raw("https://example.com/", "PUT");
    r.data = Some(b("@data.bin"));
    let m = validate(r).expect("valid options");
    assert!(matches!(m.body_source, BodySource::FileRef(ref p) if p == &b("data.bin")));
    match build_request(&m, None, TS) {
        Err(BuildError::Resource(ResourceError::BodySourceUnreadable(p))) => {
            assert_eq!(p, b("data.bin"));
        }
        other => panic!("expected unreadable body, got {:?}", other.map(|d| d.method)),
    }
}

#[test]
fn file_body_with_contents_is_used() {
    let mut r = raw("https://example.com/", "PUT");
    r.data = Some(b("@data.bin"));
    let m = validate(r).expect("valid options");
    let contents = b("file bytes");
    let d = build_request(&m, Some(&contents), TS).expect("build");
    assert_eq!(d.body, b("file bytes"));
}

#[test]
fn header_signing_needs_region() {
    let mut r = raw("https://example.com/", "GET");
    r.access_key = Some(b("AK"));
    r.secret_key = Some(b("SK"));
    let m = validate(r).expect("valid options");
    match build_request(&m, None, TS) {
        Err(BuildError::Signing(SigningError::MissingRegion)) => {}
        other => panic!("expected missing region, got {:?}", other.map(|d| d.method)),
    }
}

#[test]
fn scheme_that_is_not_a_token_is_unsupported() {
    let mut r = raw("https://example.com/", "GET");
    r.access_key = Some(b("AK"));
    r.secret_key = Some(b("SK"));
    r.region = Some(b("r1"));
    r.auth_scheme = Some(b("bad scheme"));
    let m = validate(r).expect("valid options");
    match build_request(&m, None, TS) {
        Err(BuildError::Signing(SigningError::UnsupportedScheme)) => {}
        other => panic!("expected unsupported scheme, got {:?}", other.map(|d| d.method)),
    }
}

#[test]
fn header_signing_adds_authorization_and_date_and_region() {
    let mut r = raw("https://example.com/p?b=2&a=1", "GET");
    r.access_key = Some(b("AK"));
    r.secret_key = Some(b("SK"));
    r.region = Some(b("r9"));
    let m = validate(r).expect("valid options");
    let d = build_request(&m, None, TS).expect("build");
    let auth: Vec<&(Vec<u8>, Vec<u8>)> = d
        .headers
        .iter()
        .filter(|(n, _)| n == &b("Authorization"))
        .collect();
    assert_eq!(auth.len(), 1);
    // default scheme, access key, and a 16-hex-digit signature
    let v = String::from_utf8(auth[0].1.clone()).unwrap();
    assert!(v.starts_with("VCURL1 AK:"));
    let sig = &v["VCURL1 AK:".len()..];
    assert_eq!(sig.len(), 16);
    assert!(sig.chars().all(|c| c.is_ascii_hexdigit()));
    assert!(d.headers.iter().any(|(n, v)| n == &b("X-Auth-Date") && v == &b("1700000000")));
    assert!(d.headers.iter().any(|(n, v)| n == &b("X-Auth-Region") && v == &b("r9")));
    // the URL itself is untouched in header mode
    assert_eq!(d.url, b("https://example.com/p?b=2&a=1"));
}

#[test]
fn policy_signing_attaches_headers_by_default() {
    let mut r = raw("https://example.com/upload", "POST");
    r.access_key = Some(b("AK"));
    r.secret_key = Some(b("SK"));
    r.auth_upload_policy = Some(b("{\"expires\":1}"));
    let m = validate(r).expect("valid options");
    let d = build_request(&m, None, TS).expect("build");
    assert!(d.headers.iter().any(|(n, _)| n == &b("X-Auth-Policy")));
    assert!(d
        .headers
        .iter()
        .any(|(n, v)| n == &b("X-Auth-Policy-Signature") && v.len() == 16));
}

#[test]
fn policy_signing_in_form_mode_appends_body_fields() {
    let mut r = raw("https://example.com/upload", "POST");
    r.access_key = Some(b("AK"));
    r.secret_key = Some(b("SK"));
    r.auth_upload_policy = Some(b("doc"));
    r.auth_upload_form = true;
    let m = validate(r).expect("valid options");
    let d = build_request(&m, None, TS).expect("build");
    assert!(contains_sub(&d.body, b"policy=doc&signature="));
    assert!(d.headers.iter().all(|(n, _)| n != &b("X-Auth-Policy")));
}

#[test]
fn user_agent_flag_sets_header_unless_explicit() {
    let mut r = raw("https://example.com/", "GET");
    r.user_agent = Some(b("flag-agent"));
    let m = validate(r).expect("valid options");
    let d = build_request(&m, None, TS).expect("build");
    assert!(d.headers.iter().any(|(n, v)| n == &b("User-Agent") && v == &b("flag-agent")));

    let mut r2 = raw("https://example.com/", "GET");
    r2.user_agent = Some(b("flag-agent"));
    r2.headers = vec![b("User-Agent: explicit-agent")];
    let m2 = validate(r2).expect("valid options");
    let d2 = build_request(&m2, None, TS).expect("build");
    let uas: Vec<&(Vec<u8>, Vec<u8>)> = d2
        .headers
        .iter()
        .filter(|(n, _)| n.to_ascii_lowercase() == b"user-agent")
        .collect();
    assert_eq!(uas.len(), 1);
    assert_eq!(uas[0].1, b("explicit-agent"));
}

#[test]
fn content_md5_flag_sets_header() {
    let mut r = raw("https://example.com/", "PUT");
    r.content_md5 = Some(b("abc123=="));
    let m = validate(r).expect("valid options");
    let d = build_request(&m, None, TS).expect("build");
    assert!(d.headers.iter().any(|(n, v)| n == &b("Content-MD5") && v == &b("abc123==")));
}

#[test]
fn content_type_hint_precedence_json_first() {
    let mut r = raw("https://example.com/", "POST");
    r.json = true;
    r.binary = true;
    r.form_urlencoded = true;
    let m = validate(r).expect("valid options");
    assert_eq!(m.content_type_hint, ContentTypeHint::Json);
}

#[test]
fn empty_body_when_nothing_supplied() {
    let r = raw("https://example.com/", "GET");
    let m = validate(r).expect("valid options");
    let rb = resolve_body(&m, None).expect("resolve");
    assert!(rb.bytes.is_empty());
    assert!(rb.inferred_content_type.is_none());
}
