use maden::{HttpMethod, IntoResponse, Request, Response, StringMap};

fn header<'a>(response: &'a Response, name: &str) -> Option<&'a str> {
    response.headers.get(name).map(|value| value.as_str())
}

#[test]
fn method_names_are_upper_case() {
    assert_eq!(HttpMethod::from_name("GET"), Some(HttpMethod::Get));
    assert_eq!(HttpMethod::from_name("POST"), Some(HttpMethod::Post));
    assert_eq!(HttpMethod::from_name("PUT"), Some(HttpMethod::Put));
    assert_eq!(HttpMethod::from_name("DELETE"), Some(HttpMethod::Delete));
    assert_eq!(HttpMethod::from_name("PATCH"), Some(HttpMethod::Patch));
    assert_eq!(HttpMethod::from_name("OPTIONS"), Some(HttpMethod::Options));
    assert_eq!(HttpMethod::from_name("HEAD"), Some(HttpMethod::Head));
}

#[test]
fn other_names_are_no_method() {
    for name in ["get", "Get", "TRACE", "CONNECT", "", " GET", "GET ", "GETS", "PROPFIND"] {
        assert_eq!(HttpMethod::from_name(name), None);
    }
}

#[test]
fn a_method_is_read_back_from_its_name() {
    for method in [
        HttpMethod::Get,
        HttpMethod::Post,
        HttpMethod::Put,
        HttpMethod::Delete,
        HttpMethod::Patch,
        HttpMethod::Options,
        HttpMethod::Head,
    ] {
        assert_eq!(HttpMethod::from_name(method.as_str()), Some(method));
    }
    assert_eq!(HttpMethod::Delete.as_str(), "DELETE");
}

#[test]
fn a_request_holds_its_parts() {
    let mut headers = StringMap::new();
    headers.insert("Host".to_string(), "example".to_string());
    let mut path_params = StringMap::new();
    path_params.insert("id".to_string(), "7".to_string());
    let mut query_params = StringMap::new();
    query_params.insert("page".to_string(), "2".to_string());
    let request = Request::new(
        HttpMethod::Put,
        "/users/7".to_string(),
        headers,
        path_params,
        query_params,
        vec![1, 2, 3],
    );
    assert_eq!(request.method, HttpMethod::Put);
    assert_eq!(request.path, "/users/7");
    assert_eq!(request.headers.get("Host").map(|v| v.as_str()), Some("example"));
    assert_eq!(request.path_params.get("id").map(|v| v.as_str()), Some("7"));
    assert_eq!(request.query_params.get("page").map(|v| v.as_str()), Some("2"));
    assert_eq!(request.body, vec![1, 2, 3]);
    let copy = request.clone();
    assert_eq!(copy.method, HttpMethod::Put);
    assert_eq!(copy.path, "/users/7");
    assert_eq!(copy.headers.entries(), request.headers.entries());
    assert_eq!(copy.path_params.entries(), request.path_params.entries());
    assert_eq!(copy.query_params.entries(), request.query_params.entries());
    assert_eq!(copy.body, vec![1, 2, 3]);
}

#[test]
fn a_new_response_is_bare() {
    let response = Response::new(204);
    assert_eq!(response.status_code, 204);
    assert!(response.headers.is_empty());
    assert!(response.body.is_empty());
}

#[test]
fn with_header_sets_and_replaces() {
    let response = Response::new(200)
        .with_header("X-A", "1")
        .with_header("X-B", "2")
        .with_header("X-A", "3");
    assert_eq!(response.status_code, 200);
    assert_eq!(response.headers.len(), 2);
    assert_eq!(header(&response, "X-A"), Some("3"));
    assert_eq!(header(&response, "X-B"), Some("2"));
    assert!(response.body.is_empty());
}

#[test]
fn text_ends_in_crlf() {
    let response = Response::new(200).text("hello");
    assert_eq!(response.body, b"hello\r\n");
    assert_eq!(header(&response, "Content-Type"), Some("text/plain"));
    assert_eq!(header(&response, "Content-Length"), Some("7"));
    assert_eq!(response.status_code, 200);
}

#[test]
fn text_turns_a_final_line_feed_into_crlf() {
    let response = Response::new(200).text("hello\n");
    assert_eq!(response.body, b"hello\r\n");
    assert_eq!(header(&response, "Content-Length"), Some("7"));
}

#[test]
fn text_keeps_a_final_crlf() {
    let response = Response::new(200).text("hello\r\n");
    assert_eq!(response.body, b"hello\r\n");
    assert_eq!(header(&response, "Content-Length"), Some("7"));
}

#[test]
fn text_handles_short_and_odd_ends() {
    assert_eq!(Response::new(200).text("").body, b"\r\n");
    assert_eq!(Response::new(200).text("\n").body, b"\r\n");
    assert_eq!(Response::new(200).text("\r\n").body, b"\r\n");
    assert_eq!(Response::new(200).text("\r").body, b"\r\r\n");
    assert_eq!(Response::new(200).text("a\n\n").body, b"a\n\r\n");
    assert_eq!(Response::new(200).text("a\n\r").body, b"a\n\r\r\n");
}

#[test]
fn text_counts_bytes_not_characters() {
    let response = Response::new(200).text("caf\u{e9}");
    assert_eq!(response.body, "caf\u{e9}\r\n".as_bytes());
    assert_eq!(header(&response, "Content-Length"), Some("7"));
}

#[test]
fn text_keeps_other_headers_and_replaces_its_own() {
    let response = Response::new(201)
        .with_header("X-A", "1")
        .with_header("Content-Type", "application/octet-stream")
        .text("x");
    assert_eq!(response.status_code, 201);
    assert_eq!(
        response.headers.entries(),
        &vec![
            ("X-A".to_string(), "1".to_string()),
            ("Content-Type".to_string(), "text/plain".to_string()),
            ("Content-Length".to_string(), "3".to_string()),
        ]
    );
}

#[test]
fn json_appends_crlf_to_the_document() {
    let response = Response::new(200).json(b"{\"a\":1}".to_vec());
    assert_eq!(response.body, b"{\"a\":1}\r\n");
    assert_eq!(header(&response, "Content-Type"), Some("application/json"));
    assert_eq!(header(&response, "Content-Length"), Some("9"));
    assert_eq!(response.status_code, 200);
}

#[test]
fn json_of_no_document_is_a_bare_line_end() {
    let response = Response::new(500).json(Vec::new());
    assert_eq!(response.body, b"\r\n");
    assert_eq!(header(&response, "Content-Length"), Some("2"));
}

#[test]
fn json_carries_what_serde_json_wrote() {
    let mut record = std::collections::BTreeMap::new();
    record.insert("id".to_string(), 1u32);
    let document = serde_json::to_vec(&record).unwrap_or_default();
    let response = Response::new(200).json(document);
    assert_eq!(response.body, b"{\"id\":1}\r\n");
    assert_eq!(header(&response, "Content-Length"), Some("10"));
}

#[test]
fn html_is_passed_through() {
    let response = Response::new(200).html("<p>hi</p>\n");
    assert_eq!(response.body, b"<p>hi</p>\n");
    assert_eq!(header(&response, "Content-Type"), Some("text/html"));
    assert_eq!(header(&response, "Content-Length"), Some("10"));
    assert_eq!(response.headers.len(), 2);
    assert_eq!(response.status_code, 200);
}

#[test]
fn html_replaces_the_length_of_an_earlier_body() {
    let response = Response::new(200).text("hello").html("<p>x</p>");
    assert_eq!(response.status_code, 200);
    assert_eq!(response.body, b"<p>x</p>");
    assert_eq!(header(&response, "Content-Type"), Some("text/html"));
    assert_eq!(header(&response, "Content-Length"), Some("8"));
    assert_eq!(response.headers.len(), 2);
}

#[test]
fn html_counts_bytes_and_adds_no_line_end() {
    let response = Response::new(404).html("caf\u{e9}");
    assert_eq!(response.status_code, 404);
    assert_eq!(response.body, "caf\u{e9}".as_bytes());
    assert_eq!(header(&response, "Content-Length"), Some("5"));
    let empty = Response::new(200).html("");
    assert!(empty.body.is_empty());
    assert_eq!(header(&empty, "Content-Length"), Some("0"));
}

#[test]
fn the_last_body_builder_decides_type_and_length() {
    let response = Response::new(200).html("<p>long page</p>").json(b"{}".to_vec());
    assert_eq!(header(&response, "Content-Type"), Some("application/json"));
    assert_eq!(header(&response, "Content-Length"), Some("4"));
    let response = Response::new(200).json(b"{\"a\":1}".to_vec()).text("x");
    assert_eq!(header(&response, "Content-Type"), Some("text/plain"));
    assert_eq!(header(&response, "Content-Length"), Some("3"));
    assert_eq!(response.headers.len(), 2);
}

#[test]
fn a_response_is_its_own_response() {
    let response = Response::new(202).text("ok").into_response();
    assert_eq!(response.status_code, 202);
    assert_eq!(response.body, b"ok\r\n");
}

#[test]
fn a_text_is_sent_with_status_200() {
    let response = "Simple GET works!".to_string().into_response();
    assert_eq!(response.status_code, 200);
    assert_eq!(response.body, b"Simple GET works!\r\n");
    assert_eq!(header(&response, "Content-Type"), Some("text/plain"));
    assert_eq!(header(&response, "Content-Length"), Some("19"));
}

#[test]
fn nothing_is_sent_with_status_200_and_no_body() {
    let response = ().into_response();
    assert_eq!(response.status_code, 200);
    assert!(response.headers.is_empty());
    assert!(response.body.is_empty());
}
