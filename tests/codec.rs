use minihttp::message::{Header, Method, ParseError, Request, Response, StatusCode};

fn header(k: &str, v: &str) -> Header {
    Header { key: k.to_string(), value: v.to_string() }
}

fn request(method: Method, endpoint: &str, headers: Vec<Header>, body: &str) -> Request {
    Request { method, endpoint: endpoint.to_string(), headers, body: body.to_string() }
}

#[test]
fn encode_request_layout() {
    let r = request(Method::Post, "/echo", vec![header("host", "localhost:8000")], "Hello, ");
    assert_eq!(r.encode(), "POST /echo\nhost: localhost:8000\n\nHello, ");
}

#[test]
fn encode_request_without_headers() {
    let r = request(Method::Get, "/", vec![], "");
    assert_eq!(r.encode(), "GET /\n\n");
}

#[test]
fn encode_response_layout() {
    let r = Response {
        status_code: StatusCode::NOT_FOUND,
        headers: vec![header("a", "1"), header("a", "2")],
        body: "gone".to_string(),
    };
    assert_eq!(r.encode(), "404 Not Found\na: 1\na: 2\n\ngone");
}

#[test]
fn decode_request_fields() {
    let r = Request::decode("DELETE /items/7\nx: 1\ny:2\n\nrest").unwrap();
    assert_eq!(r.method, Method::Delete);
    assert_eq!(r.endpoint, "/items/7");
    assert_eq!(r.headers, vec![header("x", "1"), header("y", "2")]);
    assert_eq!(r.body, "rest");
}

#[test]
fn decode_keeps_body_verbatim() {
    let r = Request::decode("PUT /a b\n\nk: v\n\n\nmore\n").unwrap();
    assert_eq!(r.endpoint, "/a b");
    assert!(r.headers.is_empty());
    assert_eq!(r.body, "k: v\n\n\nmore\n");
}

#[test]
fn request_round_trip_cases() {
    let cases = vec![
        request(Method::Get, "/", vec![], ""),
        request(Method::Post, "/echo", vec![header("host", "localhost:8000")], "Hello, "),
        request(Method::Patch, "x y", vec![header("k", ": tricky"), header("k", "")], "a: b\n\nc"),
        request(Method::Options, "", vec![header("", " lead")], "\n"),
    ];
    for r in cases {
        assert_eq!(Request::decode(&r.encode()), Ok(r.clone()));
    }
}

#[test]
fn response_round_trip_cases() {
    let codes = [
        StatusCode::OK,
        StatusCode::CREATED,
        StatusCode::NO_CONTENT,
        StatusCode::BAD_REQUEST,
        StatusCode::NOT_FOUND,
        StatusCode::METHOD_NOT_ALLOWED,
        StatusCode::INTERNAL_SERVER_ERROR,
    ];
    for c in codes {
        let r = Response {
            status_code: c,
            headers: vec![header("content-type", "text/plain")],
            body: "x\n\ny: z".to_string(),
        };
        assert_eq!(Response::decode(&r.encode()), Ok(r.clone()));
    }
}

#[test]
fn decode_without_separator_fails() {
    assert_eq!(Request::decode(""), Err(ParseError::MissingSeparator));
    assert_eq!(Request::decode("GET /"), Err(ParseError::MissingSeparator));
    assert_eq!(Request::decode("GET /\nk: v"), Err(ParseError::MissingSeparator));
    assert_eq!(Request::decode("GET /\nk: v\n"), Err(ParseError::MissingSeparator));
    assert_eq!(Response::decode("200 OK\n"), Err(ParseError::MissingSeparator));
}

#[test]
fn decode_unknown_method_fails() {
    assert_eq!(Request::decode("FETCH /\n\n"), Err(ParseError::MalformedMethod));
    assert_eq!(Request::decode("get /\n\n"), Err(ParseError::MalformedMethod));
    assert_eq!(Request::decode("GET\n\n"), Err(ParseError::MalformedMethod));
}

#[test]
fn decode_header_without_colon_fails() {
    assert_eq!(Request::decode("GET /\nnocolon\n\nbody"), Err(ParseError::MalformedHeader));
    assert_eq!(Response::decode("200 OK\nbad header\n\n"), Err(ParseError::MalformedHeader));
}

#[test]
fn decode_unknown_status_fails() {
    assert_eq!(Response::decode("299 Fine\n\n"), Err(ParseError::MalformedStatus));
    assert_eq!(Response::decode("200 ok\n\n"), Err(ParseError::MalformedStatus));
}

#[test]
fn method_tokens() {
    assert_eq!(Method::parse("GET"), Some(Method::Get));
    assert_eq!(Method::parse("OPTIONS"), Some(Method::Options));
    assert_eq!(Method::parse("Get"), None);
    assert_eq!(Method::Delete.as_str(), "DELETE");
}

#[test]
fn status_codes() {
    assert_eq!(StatusCode::OK.code(), 200);
    assert_eq!(StatusCode::NOT_FOUND.code(), 404);
    assert_eq!(StatusCode::INTERNAL_SERVER_ERROR.as_str(), "500 Internal Server Error");
    assert_eq!(StatusCode::parse("404 Not Found"), Some(StatusCode::NOT_FOUND));
    assert_eq!(StatusCode::parse("404"), None);
}
