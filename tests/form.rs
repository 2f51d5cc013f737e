use minihttp::client::{HttpClient, SendError};
use minihttp::form::{describe, Action, App, InputMode, Key};
use minihttp::message::{Header, Method, ParseError, Response, StatusCode};

fn app() -> App {
    App::new(HttpClient::new("127.0.0.1:9000".to_string()), "127.0.0.1:8004".to_string())
}

fn type_str(a: &mut App, s: &str) {
    for c in s.chars() {
        assert_eq!(a.on_key(Key::Char(c)), Action::Continue);
    }
}

#[test]
fn new_form_is_normal() {
    let a = app();
    assert_eq!(a.input_mode, InputMode::Normal);
    assert_eq!(a.url_input, "127.0.0.1:8004");
    assert_eq!(a.character_index, 0);
    assert!(a.messages.is_empty());
    assert_eq!(a.error_message, None);
}

#[test]
fn normal_mode_keys() {
    let mut a = app();
    assert_eq!(a.on_key(Key::Char('x')), Action::Continue);
    assert_eq!(a.input_mode, InputMode::Normal);
    assert_eq!(a.on_key(Key::Char('m')), Action::Continue);
    assert_eq!(a.method, Method::Post);
    assert_eq!(a.on_key(Key::Enter), Action::Send);
    assert_eq!(a.on_key(Key::Char('q')), Action::Quit);
}

#[test]
fn editing_url_appends_at_end() {
    let mut a = app();
    a.on_key(Key::Char('u'));
    assert_eq!(a.input_mode, InputMode::EditingUrl);
    assert_eq!(a.character_index, 14);
    type_str(&mut a, "/echo");
    assert_eq!(a.url_input, "127.0.0.1:8004/echo");
    assert_eq!(a.on_key(Key::Char('q')), Action::Continue);
    assert_eq!(a.url_input, "127.0.0.1:8004/echoq");
}

#[test]
fn cursor_moves_and_inserts() {
    let mut a = app();
    a.on_key(Key::Char('b'));
    type_str(&mut a, "ac");
    a.on_key(Key::Left);
    a.on_key(Key::Char('b'));
    assert_eq!(a.body_input, "abc");
    assert_eq!(a.character_index, 2);
    a.on_key(Key::Right);
    a.on_key(Key::Right);
    assert_eq!(a.character_index, 3);
    a.on_key(Key::Left);
    a.on_key(Key::Left);
    a.on_key(Key::Left);
    a.on_key(Key::Left);
    assert_eq!(a.character_index, 0);
}

#[test]
fn backspace_removes_left_char() {
    let mut a = app();
    a.on_key(Key::Char('b'));
    type_str(&mut a, "héllo");
    a.on_key(Key::Left);
    a.on_key(Key::Left);
    a.on_key(Key::Backspace);
    assert_eq!(a.body_input, "hélo");
    assert_eq!(a.character_index, 2);
    a.reset_cursor();
    a.on_key(Key::Backspace);
    assert_eq!(a.body_input, "hélo");
    assert_eq!(a.character_index, 0);
}

#[test]
fn tab_and_escape() {
    let mut a = app();
    a.on_key(Key::Char('e'));
    a.on_key(Key::Tab);
    assert_eq!(a.input_mode, InputMode::EditingHeaders);
    a.on_key(Key::Tab);
    assert_eq!(a.input_mode, InputMode::EditingBody);
    a.on_key(Key::Tab);
    assert_eq!(a.input_mode, InputMode::EditingUrl);
    a.on_key(Key::Esc);
    assert_eq!(a.input_mode, InputMode::Normal);
    a.enter_char('z');
    a.delete_char();
    assert_eq!(a.url_input, "127.0.0.1:8004");
}

#[test]
fn form_builds_request() {
    let mut a = app();
    a.on_key(Key::Char('m'));
    a.on_key(Key::Char('u'));
    type_str(&mut a, "/echo");
    a.on_key(Key::Tab);
    type_str(&mut a, "host: localhost:8000;x:1");
    a.on_key(Key::Tab);
    type_str(&mut a, "Hello, ");
    let req = a.request().unwrap();
    assert_eq!(req.method, Method::Post);
    assert_eq!(req.endpoint, "/echo");
    assert_eq!(
        req.headers,
        vec![
            Header { key: "host".to_string(), value: "localhost:8000".to_string() },
            Header { key: "x".to_string(), value: "1".to_string() },
        ]
    );
    assert_eq!(req.body, "Hello, ");
    assert_eq!(a.target(), "127.0.0.1:8004");
}

#[test]
fn form_defaults_and_errors() {
    let mut a = App::new(HttpClient::new("127.0.0.1:9000".to_string()), String::new());
    let req = a.request().unwrap();
    assert_eq!(req.endpoint, "/");
    assert_eq!(a.target(), "127.0.0.1:9000");
    a.on_key(Key::Char('h'));
    type_str(&mut a, "novalue");
    assert_eq!(a.request(), Err(ParseError::MalformedHeader));
}

#[test]
fn replies_are_recorded() {
    let mut a = app();
    a.record_reply(Err(SendError::Parse(ParseError::MalformedStatus)));
    assert_eq!(a.error_message, Some("reply has an unknown status".to_string()));
    assert!(a.messages.is_empty());
    a.record_reply(Ok(Response { status_code: StatusCode::OK, headers: vec![], body: "hi".to_string() }));
    assert_eq!(a.messages, vec!["200 OK\n\nhi".to_string()]);
    assert_eq!(a.error_message, None);
    assert_eq!(describe(&SendError::Io("refused".to_string())), "refused");
}
