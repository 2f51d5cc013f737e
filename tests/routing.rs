use minihttp::client::{HttpClient, SendError};
use minihttp::handlers::{echo, process};
use minihttp::message::{Header, Method, ParseError, Request, Response, StatusCode};
use minihttp::router::{bad_request, not_found, Router};
use minihttp::server::handle_frame;

type Handler = fn(Request) -> Response;

fn sample_router() -> Router<Handler> {
    Router::new()
        .add_endpoint("/".to_string(), Method::Get, process as Handler)
        .add_endpoint("/echo".to_string(), Method::Post, echo as Handler)
}

fn get(endpoint: &str) -> Request {
    Request { method: Method::Get, endpoint: endpoint.to_string(), headers: vec![], body: String::new() }
}

fn teapot(_: Request) -> Response {
    Response { status_code: StatusCode::CREATED, headers: vec![], body: "second".to_string() }
}

#[test]
fn resolve_registered_pairs() {
    let r = sample_router();
    assert_eq!(r.resolve(&get("/")), Some(0));
    let mut post = get("/echo");
    post.method = Method::Post;
    assert_eq!(r.resolve(&post), Some(1));
    assert_eq!(r.resolve(&post), Some(1));
}

#[test]
fn resolve_unregistered_pairs() {
    let r = sample_router();
    assert_eq!(r.resolve(&get("/echo")), None);
    assert_eq!(r.resolve(&get("/missing")), None);
    assert_eq!(r.resolve_route("", Method::Get), None);
    let empty: Router<Handler> = Router::new();
    assert_eq!(empty.resolve(&get("/")), None);
}

#[test]
fn first_registration_wins() {
    let r = sample_router().add_endpoint("/".to_string(), Method::Get, teapot as Handler);
    assert_eq!(r.resolve(&get("/")), Some(0));
    assert_eq!(r.dispatch(get("/")).status_code, StatusCode::OK);
}

#[test]
fn resolution_ignores_other_entries() {
    let a = Router::new()
        .add_endpoint("/x".to_string(), Method::Get, teapot as Handler)
        .add_endpoint("/".to_string(), Method::Get, process as Handler);
    let b = Router::new()
        .add_endpoint("/".to_string(), Method::Get, process as Handler)
        .add_endpoint("/x".to_string(), Method::Put, teapot as Handler);
    assert_eq!(a.dispatch(get("/")), b.dispatch(get("/")));
    assert_eq!(a.resolve(&get("/y")), None);
    assert_eq!(b.resolve(&get("/y")), None);
}

#[test]
fn dispatch_not_found() {
    let resp = sample_router().dispatch(get("/missing"));
    assert_eq!(resp, not_found());
    assert_eq!(resp.status_code.code(), 404);
}

#[test]
fn process_answers_hello() {
    let resp = process(get("/"));
    assert_eq!(resp.status_code, StatusCode::OK);
    assert!(resp.headers.is_empty());
    assert_eq!(resp.body, "{\"Hello,\": \" World!\"}");
}

#[test]
fn echo_renders_request() {
    let req = Request {
        method: Method::Post,
        endpoint: "/echo".to_string(),
        headers: vec![Header { key: "host".to_string(), value: "localhost:8000".to_string() }],
        body: "Hello, ".to_string(),
    };
    let resp = echo(req.clone());
    assert_eq!(resp.status_code, StatusCode::OK);
    assert_eq!(resp.headers, req.headers);
    assert_eq!(resp.body, "POST /echo\nhost: localhost:8000\n\nHello, ");
}

/// One exchange over the wire format: the client's frame goes through the server's
/// connection step, and the client reads the reply.
fn exchange(router: &Router<Handler>, req: &Request) -> Result<Response, SendError> {
    let client = HttpClient::new("127.0.0.1:8004".to_string());
    let reply = handle_frame(router, &req.encode());
    client.finish(Ok(reply))
}

#[test]
fn hello_world_scenario() {
    let resp = exchange(&sample_router(), &get("/")).unwrap();
    assert_eq!(resp.status_code, StatusCode::OK);
    assert_eq!(resp.body, "{\"Hello,\": \" World!\"}");
}

#[test]
fn echo_headers_scenario() {
    let req = Request {
        method: Method::Post,
        endpoint: "/echo".to_string(),
        headers: vec![Header { key: "host".to_string(), value: "localhost:8000".to_string() }],
        body: "Hello, ".to_string(),
    };
    let resp = exchange(&sample_router(), &req).unwrap();
    assert_eq!(resp.status_code, StatusCode::OK);
    assert_eq!(resp.headers, req.headers);
}

#[test]
fn missing_path_scenario() {
    let resp = exchange(&sample_router(), &get("/missing")).unwrap();
    assert_eq!(resp.status_code, StatusCode::NOT_FOUND);
}

#[test]
fn malformed_frame_gets_bad_request() {
    let r = sample_router();
    assert_eq!(handle_frame(&r, "GARBAGE"), bad_request().encode());
    assert_eq!(handle_frame(&r, "BREW /\n\n"), "400 Bad Request\n\n");
    assert_eq!(handle_frame(&r, "GET /\nno colon\n\n"), "400 Bad Request\n\n");
}

#[test]
fn client_reports_failures() {
    let client = HttpClient::new("127.0.0.1:8004".to_string());
    assert_eq!(client.target, "127.0.0.1:8004");
    assert_eq!(
        client.finish(Err("connection refused".to_string())),
        Err(SendError::Io("connection refused".to_string()))
    );
    assert_eq!(
        client.finish(Ok("200 OK".to_string())),
        Err(SendError::Parse(ParseError::MissingSeparator))
    );
    assert_eq!(
        client.finish(Ok("201 Created\nk: v\n\nmade".to_string())),
        Ok(Response {
            status_code: StatusCode::CREATED,
            headers: vec![Header { key: "k".to_string(), value: "v".to_string() }],
            body: "made".to_string(),
        })
    );
}
