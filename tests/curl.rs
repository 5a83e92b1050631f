use http_client::CurlConverter;

#[test]
fn test_http_to_curl_get() {
    let http = r###"
### Get Users
GET https://api.example.com/users
Accept: application/json
"###;
    let curl = CurlConverter::http_to_curl(http);
    assert!(curl.contains("curl"));
    assert!(curl.contains("https://api.example.com/users"));
    assert!(curl.contains("Accept: application/json"));
}

#[test]
fn test_http_to_curl_post() {
    let http = r###"
### Create User
POST https://api.example.com/users
Content-Type: application/json

{
  "name": "John"
}
"###;
    let curl = CurlConverter::http_to_curl(http);
    assert!(curl.contains("-X POST") || curl.contains("POST"), "cURL should contain POST method");
    assert!(curl.contains("https://api.example.com/users"), "cURL should contain URL");
    assert!(curl.contains("-d"), "cURL should contain -d flag for body");
}

#[test]
fn test_http_to_curl_with_headers() {
    let http = r###"
GET https://api.example.com/users
Authorization: Bearer token123
Accept: application/json
"###;
    let curl = CurlConverter::http_to_curl(http);
    assert!(curl.contains("Authorization: Bearer token123"));
    assert!(curl.contains("Accept: application/json"));
}

#[test]
fn http_to_curl_exact_command() {
    let http = "### Post\nPOST https://a/p\nX-K: v\n\n{\"it's\": 1}\n";
    assert_eq!(
        CurlConverter::http_to_curl(http),
        "curl -X POST 'https://a/p' -H 'X-K: v' -d '{\"it'\\''s\": 1}'"
    );
}

#[test]
fn http_to_curl_get_has_no_method_flag() {
    assert_eq!(CurlConverter::http_to_curl("https://a/g\n"), "curl 'https://a/g'");
    assert_eq!(CurlConverter::http_to_curl(""), "curl ''");
}

#[test]
fn test_curl_to_http() {
    let curl = "curl 'https://httpbin.org/' -H 'Connection: keep-alive' -H 'Accept: text/html'";
    let http = CurlConverter::curl_to_http(curl).unwrap();
    assert!(http.contains("GET"));
    assert!(http.contains("https://httpbin.org/"));
    assert!(http.contains("Connection: keep-alive"));
}

#[test]
fn test_curl_to_http_with_post() {
    let curl = "curl -X POST 'https://httpbin.org/post' -H 'Content-Type: application/json' -d '{\"name\":\"test\"}'";
    let http = CurlConverter::curl_to_http(curl).unwrap();
    assert!(http.contains("POST"), "HTTP should contain POST method");
    assert!(http.contains("https://httpbin.org/post"), "HTTP should contain URL");
    assert!(http.contains("Content-Type: application/json"), "HTTP should contain Content-Type header");
    assert!(http.contains("name") || http.contains("test"), "HTTP should contain body with 'name' or 'test'");
}

#[test]
fn test_curl_to_http_with_multiple_headers() {
    let curl = "curl 'https://api.example.com/users' -H 'Accept: application/json' -H 'Authorization: Bearer token123'";
    let http = CurlConverter::curl_to_http(curl).unwrap();
    assert!(http.contains("Accept: application/json"));
    assert!(http.contains("Authorization: Bearer token123"));
}

#[test]
fn test_curl_with_quotes() {
    let curl = r#"curl "https://httpbin.org/get""#;
    let http = CurlConverter::curl_to_http(curl).unwrap();
    assert!(http.contains("https://httpbin.org/get"));
}

#[test]
fn test_curl_without_quotes() {
    let curl = "curl https://httpbin.org/get";
    let http = CurlConverter::curl_to_http(curl).unwrap();
    assert!(http.contains("https://httpbin.org/get"));
}

#[test]
fn curl_to_http_exact_text() {
    let curl = "  curl -X put https://a/p -H 'B: 1' -H \"A: 2\" -H 'B: 3' --data {\\\"k\\\":1}  ";
    assert_eq!(
        CurlConverter::curl_to_http(curl).unwrap(),
        "# Converted from cURL\n###\nPUT https://a/p\nB: 3\nA: 2\n\n{\"k\":1}\n"
    );
}

#[test]
fn curl_data_turns_get_into_post() {
    assert_eq!(
        CurlConverter::curl_to_http("curl https://a/d -d x=1").unwrap(),
        "# Converted from cURL\n###\nPOST https://a/d\nx=1\n"
    );
}

#[test]
fn http_text_and_headers_from_groups() {
    let groups = vec![
        (0, 9, vec![Some("-H 'A: 1'".to_string()), Some("A: 1".to_string())]),
        (10, 19, vec![Some("-H 'junk'".to_string()), Some("junk".to_string())]),
        (20, 29, vec![Some("-H 'A: 2'".to_string()), Some("A: 2".to_string())]),
    ];
    let headers = http_client::curl::headers_from_groups(&groups);
    assert_eq!(headers.len(), 1);
    assert_eq!(headers.get("A"), Some(&"2".to_string()));
    let text = http_client::curl::http_text("GET".to_string(), "https://h/".to_string(), &headers, "it\\'s".to_string());
    assert_eq!(text, "# Converted from cURL\n###\nPOST https://h/\nA: 2\n\nit's\n");
}
