use axum::http::StatusCode;
use tauri_plugin_axum::http::{header_value_text, reason_text, status_text, visible_text};
use tauri_plugin_axum::response::{
    buffered_response, header_of, merge_headers, response_meta, scheme_reply, show_headers,
    upsert, INTERNAL_SERVER_ERROR,
};

fn header(name: &str, value: &[u8]) -> (String, Vec<u8>) {
    (name.to_string(), value.to_vec())
}

fn pair(name: &str, value: &str) -> (String, String) {
    (name.to_string(), value.to_string())
}

#[test]
fn status_text_is_the_canonical_reason() {
    assert_eq!(status_text(200), "OK");
    assert_eq!(status_text(404), "Not Found");
    assert_eq!(status_text(500), "Internal Server Error");
    assert_eq!(status_text(299), "");
    assert_eq!(status_text(99), "");
    assert_eq!(status_text(1000), "");
    assert_eq!(status_text(0), "");
    assert_eq!(status_text(u16::MAX), "");
}

#[test]
fn status_text_agrees_with_http_everywhere() {
    for code in 100..=999u16 {
        let expected = StatusCode::from_u16(code).unwrap().canonical_reason().unwrap_or("");
        assert_eq!(status_text(code), expected);
    }
}

#[test]
fn reason_text_defaults_to_empty() {
    assert_eq!(reason_text(Some("Created".to_string())), "Created");
    assert_eq!(reason_text(None), "");
}

#[test]
fn header_text_is_empty_unless_visible_ascii() {
    assert_eq!(header_value_text(b"text/plain".to_vec()), "text/plain");
    assert_eq!(header_value_text(b"a\tb c~".to_vec()), "a\tb c~");
    assert_eq!(header_value_text(Vec::new()), "");
    assert_eq!(header_value_text(b"caf\xc3\xa9".to_vec()), "");
    assert_eq!(header_value_text(b"a\x7fb".to_vec()), "");
    assert_eq!(header_value_text(b"a\nb".to_vec()), "");
}

#[test]
fn visible_text_agrees_with_http() {
    for b in 0..=255u8 {
        let bytes = vec![b'a', b];
        let expected = match axum::http::HeaderValue::from_bytes(&bytes) {
            Ok(v) => v.to_str().is_ok(),
            Err(_) => (32..127).contains(&b) || b == 9,
        };
        assert_eq!(visible_text(&bytes), expected, "byte {}", b);
        if expected {
            let mut text = String::from("a");
            text.push(b as char);
            assert_eq!(header_value_text(bytes), text);
        }
    }
}

#[test]
fn show_headers_keeps_names_and_order() {
    let shown = show_headers(&vec![
        header("content-type", b"text/html"),
        header("set-cookie", b"a=1"),
        header("x-bin", b"\xff\xfe"),
        header("set-cookie", b"b=2"),
    ]);
    assert_eq!(
        shown,
        vec![
            pair("content-type", "text/html"),
            pair("set-cookie", "a=1"),
            pair("x-bin", ""),
            pair("set-cookie", "b=2"),
        ]
    );
}

#[test]
fn response_meta_holds_what_the_router_produced() {
    let meta = response_meta(201, &vec![header("location", b"/items/1")], 42);
    assert_eq!(meta.status, 201);
    assert_eq!(meta.status_text, "Created");
    assert_eq!(meta.headers, vec![pair("location", "/items/1")]);
    assert_eq!(meta.bodyid, 42);
}

#[test]
fn upsert_replaces_or_adds() {
    let mut entries = Vec::new();
    upsert(&mut entries, "a".to_string(), "1".to_string());
    upsert(&mut entries, "b".to_string(), "2".to_string());
    upsert(&mut entries, "a".to_string(), "3".to_string());
    assert_eq!(entries, vec![pair("a", "3"), pair("b", "2")]);
}

#[test]
fn merge_headers_lets_later_values_win() {
    let mut entries = vec![pair("a", "0")];
    merge_headers(
        &mut entries,
        &vec![header("b", b"1"), header("a", b"2"), header("b", b"\x01")],
    );
    assert_eq!(entries, vec![pair("a", "2"), pair("b", "")]);
}

#[test]
fn buffered_response_merges_trailers() {
    let response = buffered_response(
        200,
        &vec![
            header("content-type", b"text/plain"),
            header("x-a", b"1"),
            header("x-a", b"2"),
        ],
        Some(vec![header("x-checksum", b"abc"), header("content-type", b"text/html")]),
        b"Hello, World!".to_vec(),
    );
    assert_eq!(response.status, 200);
    assert_eq!(response.body, b"Hello, World!");
    assert_eq!(response.headers.len(), 3);
    assert_eq!(
        header_of(&response, &"content-type".to_string()),
        Some(&"text/html".to_string())
    );
    assert_eq!(header_of(&response, &"x-a".to_string()), Some(&"2".to_string()));
    assert_eq!(header_of(&response, &"x-checksum".to_string()), Some(&"abc".to_string()));
    assert_eq!(header_of(&response, &"x-b".to_string()), None);
}

#[test]
fn fetch_and_one_shot_show_the_same_response() {
    let headers = vec![
        header("content-type", b"text/plain; charset=utf-8"),
        header("content-length", b"13"),
    ];
    let meta = response_meta(200, &headers, 3);
    let response = buffered_response(200, &headers, None, b"Hello, World!".to_vec());
    assert_eq!(meta.status, response.status);
    assert_eq!(meta.headers.len(), response.headers.len());
    for (name, value) in &meta.headers {
        assert_eq!(header_of(&response, name), Some(value));
    }
}

#[test]
fn scheme_reply_passes_the_body_or_reports_500() {
    assert_eq!(scheme_reply(200, Ok(b"page".to_vec())), (200, b"page".to_vec()));
    assert_eq!(scheme_reply(404, Ok(Vec::new())), (404, Vec::new()));
    assert_eq!(
        scheme_reply(200, Err("body failed".to_string())),
        (500, b"body failed".to_vec())
    );
    assert_eq!(INTERNAL_SERVER_ERROR, StatusCode::INTERNAL_SERVER_ERROR.as_u16());
}
