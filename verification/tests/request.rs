use axum::http::{HeaderName, HeaderValue, Method, Uri};
use tauri_plugin_axum::http::{names_match, to_lower, token_byte};
use tauri_plugin_axum::request::{
    build_request, canonical_headers, find_header, headers_as_bytes, method_or_default,
    request_from_conf, translate, translate_json, translate_one_shot, uri_or_default,
    x_method_name, x_uri_name,
};
use tauri_plugin_axum::{Error, FetchConf, IpcBody, IpcEnvelope};

fn header(name: &str, value: &str) -> (Vec<u8>, Vec<u8>) {
    (name.as_bytes().to_vec(), value.as_bytes().to_vec())
}

fn envelope(headers: Vec<(Vec<u8>, Vec<u8>)>, body: &[u8]) -> IpcEnvelope {
    IpcEnvelope { headers, body: IpcBody::Raw(body.to_vec()) }
}

fn conf(method: &str, uri: &str) -> FetchConf {
    FetchConf { uri: uri.to_string(), method: method.to_string(), headers: Vec::new(), body: None }
}

#[test]
fn header_names_of_the_protocol() {
    assert_eq!(x_uri_name(), b"x-uri");
    assert_eq!(x_method_name(), b"x-method");
}

#[test]
fn translate_takes_method_and_target_from_headers() {
    let env = envelope(
        vec![header("x-uri", "/items?page=2"), header("x-method", "POST"), header("accept", "*/*")],
        b"{\"a\":1}",
    );
    let req = translate(env).ok().unwrap();
    assert_eq!(req.method, b"POST");
    assert_eq!(req.uri, b"/items?page=2");
    assert_eq!(
        req.headers,
        vec![header("x-uri", "/items?page=2"), header("x-method", "POST"), header("accept", "*/*")]
    );
    assert_eq!(req.body, b"{\"a\":1}");
}

#[test]
fn translate_without_target_fails_with_uri() {
    let env = envelope(vec![header("x-method", "GET")], b"");
    assert!(matches!(translate(env), Err(Error::Uri)));
    let env = envelope(Vec::new(), b"");
    assert!(matches!(translate(env), Err(Error::Uri)));
}

#[test]
fn translate_without_method_fails_with_method() {
    let env = envelope(vec![header("x-uri", "/")], b"");
    assert!(matches!(translate(env), Err(Error::Method)));
}

#[test]
fn translate_reports_malformed_parts_as_http() {
    let env = envelope(vec![header("x-uri", "/"), header("x-method", "BAD METHOD")], b"");
    match translate(env) {
        Err(Error::Http(m)) => {
            assert_eq!(m, Method::from_bytes(b"BAD METHOD").unwrap_err().to_string())
        }
        _ => panic!("expected an http error"),
    }
    let env = envelope(vec![header("x-uri", "/a b"), header("x-method", "GET")], b"");
    match translate(env) {
        Err(Error::Http(m)) => {
            assert_eq!(m, Uri::try_from(&b"/a b"[..]).unwrap_err().to_string())
        }
        _ => panic!("expected an http error"),
    }
}

#[test]
fn translate_checks_the_target_before_the_method() {
    let env = envelope(vec![header("x-uri", "/a b"), header("x-method", "BAD METHOD")], b"");
    match translate(env) {
        Err(Error::Http(m)) => {
            assert_eq!(m, Uri::try_from(&b"/a b"[..]).unwrap_err().to_string())
        }
        _ => panic!("expected an http error"),
    }
}

#[test]
fn translate_encodes_a_structured_body() {
    let mut object = serde_json::Map::new();
    object.insert("name".to_string(), serde_json::Value::String("axum".to_string()));
    object.insert("n".to_string(), serde_json::Value::from(3));
    let value = serde_json::Value::Object(object);
    let expected = serde_json::to_vec(&value).unwrap();
    let env = IpcEnvelope {
        headers: vec![header("x-uri", "/post"), header("x-method", "POST")],
        body: IpcBody::Json(value),
    };
    let req = translate(env).ok().unwrap();
    assert_eq!(req.body, expected);

    let mut single = serde_json::Map::new();
    single.insert("axum".to_string(), serde_json::Value::String("hi".to_string()));
    let env = IpcEnvelope {
        headers: vec![header("x-uri", "/post"), header("x-method", "POST")],
        body: IpcBody::Json(serde_json::Value::Object(single)),
    };
    assert_eq!(translate(env).ok().unwrap().body, b"{\"axum\":\"hi\"}");
}

#[test]
fn translate_finds_headers_whatever_their_case() {
    let env = envelope(vec![header("X-URI", "/up"), header("X-Method", "PUT")], b"");
    let req = translate(env).ok().unwrap();
    assert_eq!(req.uri, b"/up");
    assert_eq!(req.method, b"PUT");
    assert_eq!(req.headers, vec![header("x-uri", "/up"), header("x-method", "PUT")]);
}

#[test]
fn find_header_returns_the_first_match() {
    let headers = vec![header("a", "1"), header("B", "2"), header("b", "3")];
    assert_eq!(find_header(&headers, b"b"), Some(b"2".to_vec()));
    assert_eq!(find_header(&headers, b"A"), Some(b"1".to_vec()));
    assert_eq!(find_header(&headers, b"c"), None);
    assert_eq!(find_header(&Vec::new(), b"a"), None);
}

#[test]
fn names_match_ignores_ascii_case_only() {
    assert!(names_match(b"Content-Type", b"content-type"));
    assert!(names_match(b"", b""));
    assert!(!names_match(b"content-type", b"content-typ"));
    assert!(!names_match(b"a_b", b"a-b"));
    assert!(!names_match(b"@", b"`"));
    assert!(!names_match(b"[", b"{"));
}

#[test]
fn to_lower_agrees_with_std() {
    for b in 0..=255u8 {
        assert_eq!(to_lower(b), b.to_ascii_lowercase());
    }
}

#[test]
fn token_bytes_are_those_of_http_methods() {
    for b in 0..=255u8 {
        assert_eq!(token_byte(b), Method::from_bytes(&[b]).is_ok(), "byte {}", b);
    }
}

#[test]
fn method_check_agrees_with_http() {
    for b in 0..=255u8 {
        let method = vec![b'X', b];
        let r = build_request(method.clone(), b"/".to_vec(), &Vec::new(), Vec::new());
        assert_eq!(r.is_ok(), Method::from_bytes(&method).is_ok(), "byte {}", b);
        assert_eq!(r.is_ok(), token_byte(b), "byte {}", b);
    }
    assert!(build_request(Vec::new(), b"/".to_vec(), &Vec::new(), Vec::new()).is_err());
    let long = vec![b'A'; 40];
    assert!(build_request(long, b"/".to_vec(), &Vec::new(), Vec::new()).is_ok());
}

#[test]
fn uri_check_agrees_with_http() {
    let samples: [&[u8]; 9] = [
        b"/",
        b"*",
        b"",
        b"/a b",
        b"http://example.com/x?y=1",
        b"http://[::1",
        b"/ok/path",
        b"example.com",
        b"\xff",
    ];
    for uri in samples {
        let r = build_request(b"GET".to_vec(), uri.to_vec(), &Vec::new(), Vec::new());
        assert_eq!(r.is_ok(), Uri::try_from(uri).is_ok());
    }
}

#[test]
fn header_names_are_canonicalised_as_http_does() {
    for b in 0..=255u8 {
        let name = vec![b'x', b];
        let kept = canonical_headers(&vec![(name.clone(), b"v".to_vec())]);
        match HeaderName::from_bytes(&name) {
            Ok(expected) => {
                assert_eq!(kept, vec![(expected.as_str().as_bytes().to_vec(), b"v".to_vec())])
            }
            Err(_) => assert!(kept.is_empty(), "byte {}", b),
        }
    }
    let kept = canonical_headers(&vec![header("Content-Type", "text/html")]);
    assert_eq!(kept, vec![header("content-type", "text/html")]);
    assert!(canonical_headers(&vec![header("", "v")]).is_empty());
}

#[test]
fn header_name_length_limit() {
    let longest = vec![b'a'; 65535];
    let too_long = vec![b'a'; 65536];
    assert_eq!(canonical_headers(&vec![(longest.clone(), Vec::new())]).len(), 1);
    assert!(HeaderName::from_bytes(&longest).is_ok());
    assert!(canonical_headers(&vec![(too_long.clone(), Vec::new())]).is_empty());
    assert!(HeaderName::from_bytes(&too_long).is_err());
    let mixed = vec![b'Q'; 100];
    assert_eq!(
        canonical_headers(&vec![(mixed, Vec::new())]),
        vec![(vec![b'q'; 100], Vec::new())]
    );
}

#[test]
fn header_values_are_accepted_as_http_does() {
    for b in 0..=255u8 {
        let value = vec![b'v', b];
        let kept = canonical_headers(&vec![(b"x".to_vec(), value.clone())]);
        assert_eq!(kept.len() == 1, HeaderValue::from_bytes(&value).is_ok(), "byte {}", b);
        let expected = (b >= 32 && b != 127) || b == 9;
        assert_eq!(kept.len() == 1, expected, "byte {}", b);
    }
}

#[test]
fn header_filter_keeps_order_and_drops_bad_ones() {
    let kept = canonical_headers(&vec![
        header("B", "2"),
        header("bad name", "x"),
        header("a", "1"),
        header("c", "line\nbreak"),
        header("b", "3"),
    ]);
    assert_eq!(kept, vec![header("b", "2"), header("a", "1"), header("b", "3")]);
}

#[test]
fn headers_as_bytes_keeps_the_texts() {
    let raw = headers_as_bytes(&vec![
        ("Accept".to_string(), "text/plain".to_string()),
        ("x-note".to_string(), "caf\u{e9}".to_string()),
    ]);
    assert_eq!(raw, vec![header("Accept", "text/plain"), header("x-note", "caf\u{e9}")]);
}

#[test]
fn request_from_conf_builds_the_request() {
    let c = FetchConf {
        uri: "/stream-body".to_string(),
        method: "GET".to_string(),
        headers: vec![
            ("Accept".to_string(), "text/plain".to_string()),
            ("bad header".to_string(), "v".to_string()),
            ("x-note".to_string(), "caf\u{e9}".to_string()),
        ],
        body: Some(vec![1, 2, 3]),
    };
    let req = request_from_conf(c).ok().unwrap();
    assert_eq!(req.method, b"GET");
    assert_eq!(req.uri, b"/stream-body");
    assert_eq!(req.headers, vec![header("accept", "text/plain"), header("x-note", "caf\u{e9}")]);
    assert_eq!(req.body, vec![1, 2, 3]);
}

#[test]
fn request_from_conf_without_body_has_empty_body() {
    let req = request_from_conf(conf("GET", "/")).ok().unwrap();
    assert_eq!(req.method, b"GET");
    assert_eq!(req.uri, b"/");
    assert!(req.headers.is_empty());
    assert!(req.body.is_empty());
}

#[test]
fn request_from_conf_does_not_guess_defaults() {
    assert!(matches!(request_from_conf(conf("GET", "")), Err(Error::Uri)));
    assert!(matches!(request_from_conf(conf("", "/")), Err(Error::Method)));
    assert!(matches!(request_from_conf(conf("", "")), Err(Error::Uri)));
    assert!(matches!(request_from_conf(conf("G T", "/")), Err(Error::Http(_))));
    assert!(matches!(request_from_conf(conf("GET", "/a b")), Err(Error::Http(_))));
}

#[test]
fn one_shot_falls_back_to_defaults() {
    let req = translate_one_shot(envelope(vec![header("accept", "*/*")], b"x")).ok().unwrap();
    assert_eq!(req.method, b"GET");
    assert_eq!(req.uri, b"/");
    assert_eq!(req.headers, vec![header("accept", "*/*")]);
    assert_eq!(req.body, b"x");
    let req = translate_one_shot(envelope(
        vec![header("x-uri", "/a b"), header("x-method", "G T")],
        b"",
    ))
    .ok()
    .unwrap();
    assert_eq!(req.method, b"GET");
    assert_eq!(req.uri, b"/");
}

#[test]
fn one_shot_uses_headers_that_are_well_formed() {
    let req = translate_one_shot(envelope(
        vec![header("x-uri", "/post"), header("x-method", "POST")],
        b"body",
    ))
    .ok()
    .unwrap();
    assert_eq!(req.method, b"POST");
    assert_eq!(req.uri, b"/post");
    assert_eq!(req.body, b"body");
}

#[test]
fn one_shot_encodes_a_structured_body() {
    let value = serde_json::Value::Array(vec![
        serde_json::Value::Bool(true),
        serde_json::Value::Null,
        serde_json::Value::String("x".to_string()),
    ]);
    let env = IpcEnvelope { headers: Vec::new(), body: IpcBody::Json(value) };
    let req = translate_one_shot(env).ok().unwrap();
    assert_eq!(req.body, b"[true,null,\"x\"]");
}

#[test]
fn defaults_are_get_and_root() {
    assert_eq!(method_or_default(None), b"GET");
    assert_eq!(method_or_default(Some(b"".to_vec())), b"GET");
    assert_eq!(method_or_default(Some(b"PATCH".to_vec())), b"PATCH");
    assert_eq!(uri_or_default(None), b"/");
    assert_eq!(uri_or_default(Some(b"".to_vec())), b"/");
    assert_eq!(uri_or_default(Some(b"/x".to_vec())), b"/x");
    assert!(Uri::try_from(&b"/"[..]).is_ok());
}

#[test]
fn json_call_takes_raw_bodies_only() {
    let env = IpcEnvelope {
        headers: vec![header("x-uri", "/post"), header("x-method", "POST")],
        body: IpcBody::Json(serde_json::Value::Null),
    };
    assert!(matches!(translate_json(env), Err(Error::Canceled)));
}

#[test]
fn json_call_sets_the_content_type() {
    let env = envelope(
        vec![header("x-uri", "/post"), header("x-method", "POST"), header("accept", "*/*")],
        b"{\"axum\":\"a\",\"tauri\":\"t\"}",
    );
    let req = translate_json(env).ok().unwrap();
    assert_eq!(req.method, b"POST");
    assert_eq!(req.uri, b"/post");
    assert_eq!(req.headers, vec![header("content-type", "application/json")]);
    assert_eq!(req.body, b"{\"axum\":\"a\",\"tauri\":\"t\"}");
}
