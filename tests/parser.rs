use http_client::{parse_http_content, HttpFileParser, Request};

#[test]
fn test_parse_simple_get() {
    let content = r###"
### Get Users
GET https://api.example.com/users
Accept: application/json
"###.to_string();

    let mut parser = HttpFileParser::new(content);
    let requests = parser.parse();

    assert_eq!(requests.len(), 1);
    if let Request::Http(req) = &requests[0] {
        assert_eq!(req.method, "GET");
        assert_eq!(req.uri, "https://api.example.com/users");
        assert_eq!(req.name, Some("Get Users".to_string()));
        assert_eq!(req.headers.get("Accept"), Some(&"application/json".to_string()));
    }
}

#[test]
fn test_parse_get_shorthand() {
    let content = r###"
### Simple GET
https://api.example.com/users
"###.to_string();

    let mut parser = HttpFileParser::new(content);
    let requests = parser.parse();

    assert_eq!(requests.len(), 1);
    if let Request::Http(req) = &requests[0] {
        assert_eq!(req.method, "GET");
        assert_eq!(req.uri, "https://api.example.com/users");
    }
}

#[test]
fn test_parse_post_with_body() {
    let content = r###"
### Create User
POST https://api.example.com/users
Content-Type: application/json

{
  "name": "John Doe",
  "email": "john@example.com"
}
"###.to_string();

    let mut parser = HttpFileParser::new(content);
    let requests = parser.parse();

    assert_eq!(requests.len(), 1);
    if let Request::Http(req) = &requests[0] {
        assert_eq!(req.method, "POST");
        assert_eq!(req.uri, "https://api.example.com/users");
        assert!(req.body.is_some());
        assert!(req.body.as_ref().unwrap().contains("John Doe"));
    }
}

#[test]
fn test_parse_multiple_requests() {
    let content = r###"
### Get Users
GET https://api.example.com/users

###

### Create User
POST https://api.example.com/users
Content-Type: application/json

{
  "name": "John"
}
"###.to_string();

    let mut parser = HttpFileParser::new(content);
    let requests = parser.parse();

    assert!(requests.len() >= 1);
    if let Request::Http(req) = &requests[0] {
        assert_eq!(req.method, "GET");
    }
    if requests.len() >= 2 {
        if let Request::Http(req) = &requests[1] {
            assert_eq!(req.method, "POST");
        }
    }
}

#[test]
fn test_parse_websocket() {
    let content = r###"
### WebSocket Test
WEBSOCKET ws://localhost:8080/ws
Content-Type: application/json

{
  "message": "Hello"
}

===
{
  "message": "Second"
}
"###.to_string();

    let mut parser = HttpFileParser::new(content);
    let requests = parser.parse();

    assert_eq!(requests.len(), 1);
    if let Request::WebSocket(ws) = &requests[0] {
        assert_eq!(ws.uri, "ws://localhost:8080/ws");
        assert_eq!(ws.messages.len(), 2);
        assert_eq!(ws.messages[0].wait_for_server, 0);
    }
}

#[test]
fn test_parse_rsocket() {
    let content = r###"
### RSocket Test
RSOCKET ws://localhost:7878/rsocket
Content-Type: application/json

{
  "message": "Ping"
}

===
{
  "message": "Second"
}
"###.to_string();

    let mut parser = HttpFileParser::new(content);
    let requests = parser.parse();

    assert_eq!(requests.len(), 1);
    if let Request::RSocket(rs) = &requests[0] {
        assert_eq!(rs.uri, "ws://localhost:7878/rsocket");
        assert_eq!(rs.messages.len(), 2);
        assert_eq!(rs.messages[0].wait_for_server, 0);
    }
}

#[test]
fn test_parse_rsocket_with_wait_for_server() {
    let content = r###"
RSOCKET ws://localhost:8080/rsocket

{ "first": true }

=== wait-for-server
{ "after": "response" }
"###.to_string();

    let mut parser = HttpFileParser::new(content);
    let requests = parser.parse();

    assert_eq!(requests.len(), 1);
    if let Request::RSocket(rs) = &requests[0] {
        assert_eq!(rs.messages.len(), 2);
        assert_eq!(rs.messages[0].wait_for_server, 0);
        assert!(rs.messages[0].content.contains("first"));
        assert_eq!(rs.messages[1].wait_for_server, 1);
        assert!(rs.messages[1].content.contains("after"));
    }
}

#[test]
fn test_parse_rsocket_with_headers() {
    let content = r###"
RSOCKET ws://localhost:8080/rsocket
Content-Type: application/json
X-Custom: value

{ "body": 1 }
"###.to_string();

    let mut parser = HttpFileParser::new(content);
    let requests = parser.parse();

    assert_eq!(requests.len(), 1);
    if let Request::RSocket(rs) = &requests[0] {
        assert_eq!(rs.headers.get("Content-Type"), Some(&"application/json".to_string()));
        assert_eq!(rs.headers.get("X-Custom"), Some(&"value".to_string()));
        assert_eq!(rs.messages.len(), 1);
    }
}

#[test]
fn test_parse_rsocket_rs_uri_stored_as_is() {
    let content = r###"
RSOCKET rs://localhost:7878
{ "ping": 1 }
"###.to_string();

    let mut parser = HttpFileParser::new(content);
    let requests = parser.parse();

    assert_eq!(requests.len(), 1);
    if let Request::RSocket(rs) = &requests[0] {
        assert_eq!(rs.uri, "rs://localhost:7878");
    }
}

#[test]
fn test_parse_rsocket_single_message() {
    let content = r###"
RSOCKET ws://host/rsocket

{"only": "message"}
"###.to_string();

    let mut parser = HttpFileParser::new(content);
    let requests = parser.parse();

    assert_eq!(requests.len(), 1);
    if let Request::RSocket(rs) = &requests[0] {
        assert_eq!(rs.messages.len(), 1);
        assert!(rs.messages[0].content.contains("only"));
    }
}

#[test]
fn test_parse_rsocket_no_body_then_next_request() {
    let content = r###"
RSOCKET ws://localhost:8080/rsocket

###
GET https://api.example.com/
"###.to_string();

    let mut parser = HttpFileParser::new(content);
    let requests = parser.parse();

    assert_eq!(requests.len(), 2);
    if let Request::RSocket(rs) = &requests[0] {
        assert_eq!(rs.uri, "ws://localhost:8080/rsocket");
        assert!(rs.messages.is_empty());
    }
    if let Request::Http(req) = &requests[1] {
        assert_eq!(req.method, "GET");
        assert_eq!(req.uri, "https://api.example.com/");
    }
}

#[test]
fn test_parse_graphql() {
    let content = r###"
### GraphQL Query
GRAPHQL http://localhost:8080/graphql

query {
  users {
    id
    name
  }
}
"###.to_string();

    let mut parser = HttpFileParser::new(content);
    let requests = parser.parse();

    assert_eq!(requests.len(), 1);
    if let Request::GraphQL(gql) = &requests[0] {
        assert_eq!(gql.uri, "http://localhost:8080/graphql");
        assert!(gql.query.contains("users"));
    }
}

#[test]
fn test_parse_graphql_with_variables() {
    let content = r###"
### GraphQL with Variables
GRAPHQL http://localhost:8080/graphql

query ($id: ID!) {
  user(id: $id) {
    name
  }
}

{
  "id": "123"
}
"###.to_string();

    let mut parser = HttpFileParser::new(content);
    let requests = parser.parse();

    assert_eq!(requests.len(), 1);
    if let Request::GraphQL(gql) = &requests[0] {
        assert!(gql.variables.is_some());
        if let Some(vars) = &gql.variables {
            assert_eq!(vars["id"], "123");
        }
    }
}

#[test]
fn test_parse_with_comments() {
    let content = r###"
### Request with Comments
# This is a comment
GET https://api.example.com/users
// Another comment
Accept: application/json
"###.to_string();

    let mut parser = HttpFileParser::new(content);
    let requests = parser.parse();

    assert_eq!(requests.len(), 1);
    if let Request::Http(req) = &requests[0] {
        assert!(!req.comments.is_empty());
    }
}

#[test]
fn test_parse_empty_file() {
    let content = String::new();
    let mut parser = HttpFileParser::new(content);
    let requests = parser.parse();
    assert_eq!(requests.len(), 0);
}

#[test]
fn test_parse_http_version() {
    let content = r###"
### HTTP/2 Request
GET https://api.example.com/users HTTP/2
"###.to_string();

    let mut parser = HttpFileParser::new(content);
    let requests = parser.parse();

    assert_eq!(requests.len(), 1);
    if let Request::Http(req) = &requests[0] {
        assert_eq!(req.http_version, Some("HTTP/2".to_string()));
    }
}

#[test]
fn parse_example_get_with_accept() {
    let requests = parse_http_content("### Get\nGET https://a/x\nAccept: text/plain\n".to_string());
    assert_eq!(requests.len(), 1);
    match &requests[0] {
        Request::Http(req) => {
            // `Get` uppercased is a method word, so the separator line names nothing.
            assert_eq!(req.name, None);
            assert_eq!(req.method, "GET");
            assert_eq!(req.uri, "https://a/x");
            assert_eq!(req.headers.len(), 1);
            assert_eq!(req.headers.get("Accept"), Some(&"text/plain".to_string()));
            assert_eq!(req.body, None);
            assert_eq!(req.http_version, None);
        }
        other => panic!("expected an HTTP request, got {:?}", other),
    }
}

#[test]
fn parse_example_rsocket_one_message() {
    let requests = parse_http_content("RSOCKET ws://h/p\n\n{\"a\":1}\n".to_string());
    assert_eq!(requests.len(), 1);
    match &requests[0] {
        Request::RSocket(rs) => {
            assert_eq!(rs.uri, "ws://h/p");
            assert!(rs.headers.is_empty());
            assert_eq!(rs.messages.len(), 1);
            assert_eq!(rs.messages[0].content, "{\"a\":1}");
            assert_eq!(rs.messages[0].wait_for_server, 0);
        }
        other => panic!("expected an RSocket request, got {:?}", other),
    }
}

#[test]
fn separator_text_that_is_no_method_word_names_the_request() {
    let requests = parse_http_content("### Get one\nGET https://a/x\n".to_string());
    match &requests[0] {
        Request::Http(req) => assert_eq!(req.name, Some("Get one".to_string())),
        other => panic!("expected an HTTP request, got {:?}", other),
    }
}

#[test]
fn single_block_of_each_kind() {
    let ws = parse_http_content("WEBSOCKET ws://h/s\n\nhello\n".to_string());
    assert_eq!(ws.len(), 1);
    assert!(matches!(ws[0], Request::WebSocket(_)));
    let gql = parse_http_content("GRAPHQL http://h/g\n\nquery { a }\n".to_string());
    assert_eq!(gql.len(), 1);
    assert!(matches!(gql[0], Request::GraphQL(_)));
    let http = parse_http_content("###\nPOST http://h/p\n".to_string());
    assert_eq!(http.len(), 1);
    assert!(matches!(http[0], Request::Http(_)));
}

#[test]
fn parsing_twice_gives_equal_results() {
    let text = "### A\nGET https://a/1\nX-Key: v\n\nbody\n\nRSOCKET ws://h/p\n\nm1\n=== wait-for-server\nm2\n";
    let first = parse_http_content(text.to_string());
    let second = parse_http_content(text.to_string());
    assert_eq!(format!("{:?}", first), format!("{:?}", second));
    assert_eq!(first.len(), 2);
}

#[test]
fn get_shorthand_with_name_and_comment() {
    let requests = parse_http_content("### Named\n# note\nhttp://h/x\n".to_string());
    assert_eq!(requests.len(), 1);
    match &requests[0] {
        Request::Http(req) => {
            assert_eq!(req.method, "GET");
            assert_eq!(req.uri, "http://h/x");
            assert_eq!(req.comments, vec!["# note".to_string()]);
        }
        other => panic!("expected an HTTP request, got {:?}", other),
    }
}

#[test]
fn json_body_is_kept_verbatim() {
    let text = "### J\nPOST https://a/j\nContent-Type: application/json\n\n{\n    \"k\":   \"v  w\"\n}\n";
    let requests = parse_http_content(text.to_string());
    assert_eq!(requests.len(), 1);
    match &requests[0] {
        Request::Http(req) => {
            assert_eq!(req.body, Some("{\n    \"k\":   \"v  w\"\n}".to_string()));
            assert_eq!(req.headers.get("Content-Type"), Some(&"application/json".to_string()));
        }
        other => panic!("expected an HTTP request, got {:?}", other),
    }
}

#[test]
fn wait_markers_count_and_plain_boundary_resets() {
    let text = "WEBSOCKET ws://h/w\n\nfirst\n=== wait-for-server\n=== wait-for-server\nsecond\n===\nthird\n";
    let requests = parse_http_content(text.to_string());
    assert_eq!(requests.len(), 1);
    match &requests[0] {
        Request::WebSocket(ws) => {
            assert_eq!(ws.messages.len(), 3);
            assert_eq!(ws.messages[0].content, "first");
            assert_eq!(ws.messages[0].wait_for_server, 0);
            assert_eq!(ws.messages[1].content, "second");
            assert_eq!(ws.messages[1].wait_for_server, 2);
            assert_eq!(ws.messages[2].content, "third");
            assert_eq!(ws.messages[2].wait_for_server, 0);
        }
        other => panic!("expected a WebSocket request, got {:?}", other),
    }
}

#[test]
fn comments_inside_messages_are_dropped() {
    let text = "RSOCKET ws://h/r\n\nline one\n// dropped\n# dropped too\nline two\n";
    let requests = parse_http_content(text.to_string());
    match &requests[0] {
        Request::RSocket(rs) => {
            assert_eq!(rs.messages.len(), 1);
            assert_eq!(rs.messages[0].content, "line one\nline two");
        }
        other => panic!("expected an RSocket request, got {:?}", other),
    }
}

#[test]
fn graphql_single_line_variables() {
    let text = "GRAPHQL http://h/graphql\n\nquery ($id: ID!) {\n  user(id: $id) { name }\n}\n\n{\"id\":\"123\"}\n";
    let requests = parse_http_content(text.to_string());
    assert_eq!(requests.len(), 1);
    match &requests[0] {
        Request::GraphQL(gql) => {
            let vars = gql.variables.as_ref().expect("variables");
            assert_eq!(vars["id"], "123");
            assert_eq!(gql.query, "query ($id: ID!) {\n  user(id: $id) { name }\n}\n");
            assert!(!gql.query.contains("123"));
        }
        other => panic!("expected a GraphQL request, got {:?}", other),
    }
}

#[test]
fn graphql_malformed_variables_are_dropped() {
    let text = "GRAPHQL http://h/graphql\n\nquery { a }\n{not json}\n";
    let requests = parse_http_content(text.to_string());
    match &requests[0] {
        Request::GraphQL(gql) => {
            assert!(gql.variables.is_none());
            assert_eq!(gql.query, "query { a }");
        }
        other => panic!("expected a GraphQL request, got {:?}", other),
    }
}

#[test]
fn blocks_come_in_file_order_and_blocks_without_uri_are_dropped() {
    let text = "### One\nGET https://a/1\n\n### Two\nPOST https://a/2\n\n###\n\n\n### Three\nPUT https://a/3\n";
    let requests = parse_http_content(text.to_string());
    let uris: Vec<String> = requests
        .iter()
        .map(|r| match r {
            Request::Http(h) => h.uri.clone(),
            _ => String::new(),
        })
        .collect();
    assert_eq!(uris, vec!["https://a/1", "https://a/2", "https://a/3"]);
}

#[test]
fn keyword_without_uri_is_skipped() {
    let requests = parse_http_content("WEBSOCKET\n\n### Next\nGET https://a/n\n".to_string());
    assert_eq!(requests.len(), 1);
    assert!(matches!(requests[0], Request::Http(_)));
}

#[test]
fn name_annotation_and_last_header_wins() {
    let text = "###\n# @name fetch\nGET https://a/h\nX-A: 1\nX-B: 2\nX-A: 3\n";
    let requests = parse_http_content(text.to_string());
    match &requests[0] {
        Request::Http(req) => {
            assert_eq!(req.name, Some("fetch".to_string()));
            assert!(req.comments.is_empty());
            assert_eq!(req.headers.len(), 2);
            assert_eq!(req.headers.get("X-A"), Some(&"3".to_string()));
            let names: Vec<&str> = req.headers.entries().iter().map(|(k, _)| k.as_str()).collect();
            assert_eq!(names, vec!["X-A", "X-B"]);
        }
        other => panic!("expected an HTTP request, got {:?}", other),
    }
}

#[test]
fn method_is_uppercased_and_crlf_lines_are_split() {
    let requests = parse_http_content("### Lower\r\npost https://a/p\r\n".to_string());
    match &requests[0] {
        Request::Http(req) => {
            assert_eq!(req.method, "POST");
            assert_eq!(req.uri, "https://a/p");
        }
        other => panic!("expected an HTTP request, got {:?}", other),
    }
}

#[test]
fn separator_method_word_is_no_name() {
    let requests = parse_http_content("### post\nGET https://a/q\n".to_string());
    match &requests[0] {
        Request::Http(req) => assert_eq!(req.name, None),
        other => panic!("expected an HTTP request, got {:?}", other),
    }
}
