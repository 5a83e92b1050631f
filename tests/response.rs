use http_client::body::{body_encoding, needs_json_content_type, BodyEncoding};
use http_client::{parse_http_content, HttpResponse, Request};
use std::collections::HashMap;

#[test]
fn test_http_response_creation() {
    let response = HttpResponse {
        status: 200,
        headers: {
            let mut h = HashMap::new();
            h.insert("Content-Type".to_string(), "application/json".to_string());
            h
        },
        body: r#"{"message": "success"}"#.to_string(),
        content_type: Some("application/json".to_string()),
    };

    assert_eq!(response.status, 200);
    assert_eq!(response.headers.get("Content-Type"), Some(&"application/json".to_string()));
    assert!(response.body.contains("success"));
}

#[test]
fn test_parse_form_data() {
    let form_data = "name=John+Doe&email=john%40example.com";
    let parsed: HashMap<String, String> = form_data
        .split('&')
        .filter_map(|pair| {
            let mut parts = pair.splitn(2, '=');
            let key = parts.next()?.to_string();
            let value = parts.next().unwrap_or("").to_string();
            Some((key, value))
        })
        .collect();

    assert_eq!(parsed.get("name"), Some(&"John+Doe".to_string()));
    assert_eq!(parsed.get("email"), Some(&"john%40example.com".to_string()));
}

#[test]
fn form_fields_split_at_first_equals() {
    let fields = http_client::body::parse_form_data("a=1&b=x=y&c&");
    let expected: Vec<(String, String)> = vec![
        ("a".to_string(), "1".to_string()),
        ("b".to_string(), "x=y".to_string()),
        ("c".to_string(), String::new()),
        (String::new(), String::new()),
    ];
    assert_eq!(fields, expected);
}

#[test]
fn body_encoding_follows_content_type_in_any_case() {
    let requests = parse_http_content(
        "### A\nPOST https://a/1\ncontent-type: Application/JSON\n\n{}\n### B\nPOST https://a/2\nContent-Type: application/x-www-form-urlencoded\n\na=1\n### C\nPOST https://a/3\n\nraw\n"
            .to_string(),
    );
    let encodings: Vec<BodyEncoding> = requests
        .iter()
        .map(|r| match r {
            Request::Http(h) => body_encoding(&h.headers),
            _ => panic!("expected HTTP requests"),
        })
        .collect();
    assert_eq!(encodings, vec![BodyEncoding::Json, BodyEncoding::Form, BodyEncoding::Raw]);
    if let Request::Http(h) = &requests[2] {
        assert!(needs_json_content_type(&h.headers));
    }
    if let Request::Http(h) = &requests[0] {
        assert!(!needs_json_content_type(&h.headers));
    }
}

#[test]
fn encoding_for_lowered_content_types() {
    assert_eq!(http_client::body::encoding_for_lowered("application/json"), BodyEncoding::Json);
    assert_eq!(http_client::body::encoding_for_lowered("application/x-www-form-urlencoded"), BodyEncoding::Form);
    assert_eq!(http_client::body::encoding_for_lowered("Application/JSON"), BodyEncoding::Raw);
    assert!(http_client::classify::method_name("OPTIONS"));
    assert!(!http_client::classify::method_name("get"));
    assert!(http_client::classify::method_word("get"));
}

#[test]
fn content_type_is_found_in_any_case() {
    let requests = parse_http_content(
        "### A\nPOST https://a/1\nCONTENT-TYPE: application/json\n\n{\"a\":1}\n### B\nPOST https://a/2\nContent-type: text/plain\n\nx\n".to_string(),
    );
    match (&requests[0], &requests[1]) {
        (Request::Http(a), Request::Http(b)) => {
            assert_eq!(body_encoding(&a.headers), BodyEncoding::Json);
            assert!(!needs_json_content_type(&a.headers));
            assert_eq!(body_encoding(&b.headers), BodyEncoding::Raw);
            assert!(!needs_json_content_type(&b.headers));
            assert_eq!(a.headers.get_ignoring_case("Content-Type"), Some(&"application/json".to_string()));
        }
        _ => panic!("expected HTTP requests"),
    }
}
