use vstd::prelude::*;

use crate::client::{HttpClient, SendError};
use crate::codec::{chars_of, decode_request_text, find_char, find_in, lemma_find_char_range};
use crate::message::{method_text, Method, ParseError, Request, Response};

verus! {

/// Which field of the form keys go to, if any.
#[derive(Clone, Copy, Debug, PartialEq, Eq, Structural)]
pub enum InputMode {
    Normal,
    EditingUrl,
    EditingHeaders,
    EditingBody,
}

/// A key press, as far as the form cares.
#[derive(Clone, Copy, Debug, PartialEq, Eq, Structural)]
pub enum Key {
    Char(char),
    Enter,
    Backspace,
    Left,
    Right,
    Esc,
    Tab,
    Other,
}

/// What the loop around the form does after a key.
#[derive(Clone, Copy, Debug, PartialEq, Eq, Structural)]
pub enum Action {
    Continue,
    Quit,
    Send,
}

/// The interactive request form: an address-and-path line, `;`-separated headers, a body,
/// a method, a cursor in the field being edited, and the replies received so far.
pub struct App {
    pub url_input: String,
    pub headers_input: String,
    pub body_input: String,
    pub character_index: usize,
    pub input_mode: InputMode,
    pub method: Method,
    pub messages: Vec<String>,
    pub error_message: Option<String>,
    pub client: HttpClient,
}

/// Relies on String::push: appends one char at the end.
#[verifier::external_body]
fn push_char(s: &mut String, c: char)
    ensures
        final(s)@ == old(s)@.push(c),
{
    s.push(c);
}

/// The smaller of two integers.
pub open spec fn min(a: int, b: int) -> int {
    if a <= b {
        a
    } else {
        b
    }
}

/// The text after typing `c` with the cursor at `ci`: it goes in at the cursor, or at the
/// end when the cursor stands past it.
pub open spec fn inserted(t: Seq<char>, ci: int, c: char) -> Seq<char> {
    let k = min(ci, t.len() as int);
    t.take(k).push(c) + t.skip(k)
}

/// The text after a backspace with the cursor at `ci > 0`: the char left of the cursor goes.
pub open spec fn deleted(t: Seq<char>, ci: int) -> Seq<char> {
    t.take(min(ci - 1, t.len() as int)) + t.skip(min(ci, t.len() as int))
}

/// The method after `m` in the cycle that the form offers.
pub open spec fn next_method(m: Method) -> Method {
    match m {
        Method::Get => Method::Post,
        Method::Post => Method::Put,
        Method::Put => Method::Delete,
        Method::Delete => Method::Patch,
        Method::Patch => Method::Head,
        Method::Head => Method::Options,
        Method::Options => Method::Get,
    }
}

/// The mode after a key: `u`/`e`, `h`, `b` open a field from normal mode, Tab moves to the
/// next field, Esc leaves editing.
pub open spec fn next_mode(mode: InputMode, key: Key) -> InputMode {
    match mode {
        InputMode::Normal => match key {
            Key::Char('u') | Key::Char('e') => InputMode::EditingUrl,
            Key::Char('h') => InputMode::EditingHeaders,
            Key::Char('b') => InputMode::EditingBody,
            _ => InputMode::Normal,
        },
        _ => match key {
            Key::Esc => InputMode::Normal,
            Key::Tab => match mode {
                InputMode::EditingUrl => InputMode::EditingHeaders,
                InputMode::EditingHeaders => InputMode::EditingBody,
                _ => InputMode::EditingUrl,
            },
            _ => mode,
        },
    }
}

/// What the loop does after a key: `q` in normal mode quits, Enter sends.
pub open spec fn key_action(mode: InputMode, key: Key) -> Action {
    match key {
        Key::Enter => Action::Send,
        Key::Char('q') => if mode == InputMode::Normal {
            Action::Quit
        } else {
            Action::Continue
        },
        _ => Action::Continue,
    }
}

/// The header lines written in the headers field: each `;` ends a line, and a non-empty
/// field ends with a line break.
pub open spec fn header_lines(t: Seq<char>) -> Seq<char> {
    t.map_values(|c: char| if c == ';' { '\n' } else { c }) + if t.len() > 0 {
        seq!['\n']
    } else {
        Seq::empty()
    }
}

/// The address part of the url field: what stands before the first `/`.
pub open spec fn url_address(url: Seq<char>) -> Seq<char> {
    url.take(find_char(url, '/', 0) as int)
}

/// The endpoint part of the url field: from the first `/` on, or `/` if there is none.
pub open spec fn url_endpoint(url: Seq<char>) -> Seq<char> {
    let s = find_char(url, '/', 0);
    if s < url.len() {
        url.skip(s as int)
    } else {
        seq!['/']
    }
}

/// The frame that the form describes.
pub open spec fn form_frame(m: Method, url: Seq<char>, headers: Seq<char>, body: Seq<char>) -> Seq<char> {
    method_text(m) + seq![' '] + url_endpoint(url) + seq!['\n'] + header_lines(headers)
        + seq!['\n'] + body
}

/// The text shown for a failed call.
pub open spec fn error_text(e: SendError) -> Seq<char> {
    match e {
        SendError::Io(m) => m@,
        SendError::Parse(ParseError::MissingSeparator) => "reply has no blank line"@,
        SendError::Parse(ParseError::MalformedMethod) => "reply has a malformed start line"@,
        SendError::Parse(ParseError::MalformedStatus) => "reply has an unknown status"@,
        SendError::Parse(ParseError::MalformedHeader) => "reply has a header without ':'"@,
    }
}

impl App {
    /// The text of the field being edited; empty in normal mode.
    pub open spec fn field(&self) -> Seq<char> {
        match self.input_mode {
            InputMode::EditingUrl => self.url_input@,
            InputMode::EditingHeaders => self.headers_input@,
            InputMode::EditingBody => self.body_input@,
            InputMode::Normal => Seq::empty(),
        }
    }

    /// `b` differs from `a` at most in the field that `a` edits, the cursor and the error.
    pub open spec fn others_kept(a: &App, b: &App) -> bool {
        &&& b.input_mode == a.input_mode
        &&& b.method == a.method
        &&& b.messages@ == a.messages@
        &&& b.client.target@ == a.client.target@
        &&& a.input_mode != InputMode::EditingUrl ==> b.url_input@ == a.url_input@
        &&& a.input_mode != InputMode::EditingHeaders ==> b.headers_input@ == a.headers_input@
        &&& a.input_mode != InputMode::EditingBody ==> b.body_input@ == a.body_input@
    }

    /// A fresh form in normal mode, its url field holding `server_addr`.
    pub fn new(client: HttpClient, server_addr: String) -> (r: App)
        ensures
            r.input_mode == InputMode::Normal,
            r.method == Method::Get,
            r.url_input@ == server_addr@,
            r.headers_input@.len() == 0,
            r.body_input@.len() == 0,
            r.character_index == 0,
            r.messages@.len() == 0,
            r.error_message is None,
            r.client.target@ == client.target@,
    {
        App {
            url_input: server_addr,
            headers_input: String::new(),
            body_input: String::new(),
            character_index: 0,
            input_mode: InputMode::Normal,
            method: Method::Get,
            messages: Vec::new(),
            error_message: None,
            client,
        }
    }

    /// A copy of the field being edited; empty in normal mode.
    fn get_current_input(&self) -> (r: String)
        ensures
            r@ == self.field(),
    {
        match self.input_mode {
            InputMode::EditingUrl => self.url_input.clone(),
            InputMode::EditingHeaders => self.headers_input.clone(),
            InputMode::EditingBody => self.body_input.clone(),
            InputMode::Normal => String::new(),
        }
    }

    /// Replaces the field being edited; nothing happens in normal mode.
    fn set_current_input(&mut self, s: String)
        requires
            old(self).input_mode != InputMode::Normal,
        ensures
            final(self).field() == s@,
            App::others_kept(&*old(self), &*final(self)),
            final(self).character_index == old(self).character_index,
            final(self).error_message == old(self).error_message,
    {
        match self.input_mode {
            InputMode::EditingUrl => self.url_input = s,
            InputMode::EditingHeaders => self.headers_input = s,
            InputMode::EditingBody => self.body_input = s,
            InputMode::Normal => {},
        }
    }

    /// The cursor bound to the field: at most its length.
    fn clamp_cursor(&self, new_cursor_pos: usize) -> (r: usize)
        ensures
            r == min(new_cursor_pos as int, self.field().len() as int),
    {
        let n = self.get_current_input().as_str().unicode_len();
        if new_cursor_pos <= n {
            new_cursor_pos
        } else {
            n
        }
    }

    /// Moves the cursor one char left, if it can.
    pub fn move_cursor_left(&mut self)
        ensures
            final(self).character_index == min(
                if old(self).character_index == 0 {
                    0
                } else {
                    old(self).character_index - 1
                },
                old(self).field().len() as int,
            ),
            App::others_kept(&*old(self), &*final(self)),
            final(self).field() == old(self).field(),
            final(self).error_message == old(self).error_message,
    {
        let moved = self.character_index.saturating_sub(1);
        self.character_index = self.clamp_cursor(moved);
    }

    /// Moves the cursor one char right, not past the end of the field.
    pub fn move_cursor_right(&mut self)
        ensures
            final(self).character_index == min(
                if old(self).character_index == usize::MAX {
                    usize::MAX as int
                } else {
                    old(self).character_index + 1
                },
                old(self).field().len() as int,
            ),
            App::others_kept(&*old(self), &*final(self)),
            final(self).field() == old(self).field(),
            final(self).error_message == old(self).error_message,
    {
        let moved = self.character_index.saturating_add(1);
        self.character_index = self.clamp_cursor(moved);
    }

    /// Types `new_char` at the cursor and moves the cursor past it; clears the error.
    /// Nothing happens in normal mode, or when the field already holds `usize::MAX` chars.
    pub fn enter_char(&mut self, new_char: char)
        ensures
            old(self).input_mode == InputMode::Normal || old(self).field().len() >= usize::MAX
                ==> *final(self) == *old(self),
            old(self).input_mode != InputMode::Normal && old(self).field().len() < usize::MAX ==> {
                &&& final(self).field() == inserted(
                    old(self).field(),
                    old(self).character_index as int,
                    new_char,
                )
                &&& final(self).character_index == min(
                    old(self).character_index as int,
                    old(self).field().len() as int,
                ) + 1
                &&& final(self).error_message is None
                &&& App::others_kept(&*old(self), &*final(self))
            },
    {
        if self.input_mode == InputMode::Normal {
            return;
        }
        let t = self.get_current_input();
        let n = t.as_str().unicode_len();
        if n == usize::MAX {
            return;
        }
        let k = if self.character_index <= n {
            self.character_index
        } else {
            n
        };
        let mut s = t.as_str().substring_char(0, k).to_owned();
        push_char(&mut s, new_char);
        s.append(t.as_str().substring_char(k, n));
        assert(s@ =~= inserted(t@, self.character_index as int, new_char));
        self.set_current_input(s);
        self.error_message = None;
        self.character_index = k + 1;
    }

    /// Removes the char left of the cursor and moves the cursor left; clears the error.
    /// Nothing happens in normal mode or with the cursor at the start.
    pub fn delete_char(&mut self)
        ensures
            old(self).input_mode == InputMode::Normal || old(self).character_index == 0
                ==> *final(self) == *old(self),
            old(self).input_mode != InputMode::Normal && old(self).character_index != 0 ==> {
                &&& final(self).field() == deleted(
                    old(self).field(),
                    old(self).character_index as int,
                )
                &&& final(self).character_index == min(
                    old(self).character_index - 1,
                    final(self).field().len() as int,
                )
                &&& final(self).error_message is None
                &&& App::others_kept(&*old(self), &*final(self))
            },
    {
        if self.input_mode == InputMode::Normal || self.character_index == 0 {
            return;
        }
        let t = self.get_current_input();
        let n = t.as_str().unicode_len();
        let ci = self.character_index;
        let a = if ci - 1 <= n {
            ci - 1
        } else {
            n
        };
        let b = if ci <= n {
            ci
        } else {
            n
        };
        let mut s = t.as_str().substring_char(0, a).to_owned();
        s.append(t.as_str().substring_char(b, n));
        assert(s@ =~= deleted(t@, ci as int));
        self.set_current_input(s);
        self.error_message = None;
        self.move_cursor_left();
    }

    /// Puts the cursor at the end of the field being edited.
    fn cursor_to_end(&mut self)
        ensures
            final(self).character_index == old(self).field().len(),
            App::others_kept(&*old(self), &*final(self)),
            final(self).field() == old(self).field(),
            final(self).error_message == old(self).error_message,
    {
        self.character_index = self.get_current_input().as_str().unicode_len();
    }

    /// Puts the cursor at the start of the field.
    pub fn reset_cursor(&mut self)
        ensures
            final(self).character_index == 0,
            App::others_kept(&*old(self), &*final(self)),
            final(self).field() == old(self).field(),
            final(self).error_message == old(self).error_message,
    {
        self.character_index = 0;
    }
    /// Sets the mode and puts the cursor at the end of the field it opens.
    fn open_mode(&mut self, mode: InputMode)
        ensures
            final(self).input_mode == mode,
            final(self).character_index == final(self).field().len(),
            final(self).method == old(self).method,
            final(self).messages@ == old(self).messages@,
            final(self).client.target@ == old(self).client.target@,
            final(self).url_input@ == old(self).url_input@,
            final(self).headers_input@ == old(self).headers_input@,
            final(self).body_input@ == old(self).body_input@,
            final(self).error_message == old(self).error_message,
    {
        self.input_mode = mode;
        self.cursor_to_end();
    }

    /// The form's step for one key press; the loop around it draws, reads keys, and sends the
    /// request when told to.
    pub fn on_key(&mut self, key: Key) -> (r: Action)
        ensures
            r == key_action(old(self).input_mode, key),
            final(self).input_mode == next_mode(old(self).input_mode, key),
            final(self).method == (if old(self).input_mode == InputMode::Normal && key == Key::Char(
                'm',
            ) {
                next_method(old(self).method)
            } else {
                old(self).method
            }),
            final(self).messages@ == old(self).messages@,
            final(self).client.target@ == old(self).client.target@,
            old(self).input_mode == InputMode::Normal ==> {
                &&& final(self).url_input@ == old(self).url_input@
                &&& final(self).headers_input@ == old(self).headers_input@
                &&& final(self).body_input@ == old(self).body_input@
            },
            next_mode(old(self).input_mode, key) != old(self).input_mode ==> {
                &&& final(self).url_input@ == old(self).url_input@
                &&& final(self).headers_input@ == old(self).headers_input@
                &&& final(self).body_input@ == old(self).body_input@
                &&& final(self).input_mode != InputMode::Normal ==> final(self).character_index
                    == final(self).field().len()
            },
            old(self).input_mode != InputMode::Normal ==> match key {
                Key::Char(c) => old(self).field().len() < usize::MAX ==> {
                    &&& final(self).field() == inserted(
                        old(self).field(),
                        old(self).character_index as int,
                        c,
                    )
                    &&& final(self).character_index == min(
                        old(self).character_index as int,
                        old(self).field().len() as int,
                    ) + 1
                    &&& App::others_kept(&*old(self), &*final(self))
                },
                Key::Backspace => old(self).character_index != 0 ==> {
                    &&& final(self).field() == deleted(
                        old(self).field(),
                        old(self).character_index as int,
                    )
                    &&& final(self).character_index == min(
                        old(self).character_index - 1,
                        final(self).field().len() as int,
                    )
                    &&& App::others_kept(&*old(self), &*final(self))
                },
                Key::Left => {
                    &&& final(self).character_index == min(
                        if old(self).character_index == 0 {
                            0
                        } else {
                            old(self).character_index - 1
                        },
                        old(self).field().len() as int,
                    )
                    &&& final(self).field() == old(self).field()
                    &&& App::others_kept(&*old(self), &*final(self))
                },
                Key::Right => {
                    &&& final(self).character_index == min(
                        if old(self).character_index == usize::MAX {
                            usize::MAX as int
                        } else {
                            old(self).character_index + 1
                        },
                        old(self).field().len() as int,
                    )
                    &&& final(self).field() == old(self).field()
                    &&& App::others_kept(&*old(self), &*final(self))
                },
                _ => {
                    &&& final(self).url_input@ == old(self).url_input@
                    &&& final(self).headers_input@ == old(self).headers_input@
                    &&& final(self).body_input@ == old(self).body_input@
                },
            },
    {
        match self.input_mode {
            InputMode::Normal => match key {
                Key::Char('q') => Action::Quit,
                Key::Char('u') | Key::Char('e') => {
                    self.open_mode(InputMode::EditingUrl);
                    Action::Continue
                },
                Key::Char('h') => {
                    self.open_mode(InputMode::EditingHeaders);
                    Action::Continue
                },
                Key::Char('b') => {
                    self.open_mode(InputMode::EditingBody);
                    Action::Continue
                },
                Key::Char('m') => {
                    self.method = match self.method {
                        Method::Get => Method::Post,
                        Method::Post => Method::Put,
                        Method::Put => Method::Delete,
                        Method::Delete => Method::Patch,
                        Method::Patch => Method::Head,
                        Method::Head => Method::Options,
                        Method::Options => Method::Get,
                    };
                    Action::Continue
                },
                Key::Enter => Action::Send,
                _ => Action::Continue,
            },
            mode => match key {
                Key::Enter => Action::Send,
                Key::Char(c) => {
                    self.enter_char(c);
                    Action::Continue
                },
                Key::Backspace => {
                    self.delete_char();
                    Action::Continue
                },
                Key::Left => {
                    self.move_cursor_left();
                    Action::Continue
                },
                Key::Right => {
                    self.move_cursor_right();
                    Action::Continue
                },
                Key::Esc => {
                    self.input_mode = InputMode::Normal;
                    Action::Continue
                },
                Key::Tab => {
                    let next = match mode {
                        InputMode::EditingUrl => InputMode::EditingHeaders,
                        InputMode::EditingHeaders => InputMode::EditingBody,
                        _ => InputMode::EditingUrl,
                    };
                    self.open_mode(next);
                    Action::Continue
                },
                Key::Other => Action::Continue,
            },
        }
    }

    /// The frame that the form describes, as text.
    fn frame(&self) -> (r: String)
        ensures
            r@ == form_frame(self.method, self.url_input@, self.headers_input@, self.body_input@),
    {
        proof {
            reveal_strlit(" ");
            reveal_strlit("\n");
            reveal_strlit("/");
        }
        let url = chars_of(self.url_input.as_str());
        let slash = find_in(&url, '/', 0);
        proof {
            lemma_find_char_range(url@, '/', 0);
        }
        let mut out = String::new();
        out.append(self.method.as_str());
        out.append(" ");
        if slash < url.len() {
            out.append(self.url_input.as_str().substring_char(slash, url.len()));
        } else {
            out.append("/");
        }
        out.append("\n");
        let h = self.headers_input.as_str();
        let n = h.unicode_len();
        let ghost start = out@;
        let mut i: usize = 0;
        while i < n
            invariant
                0 <= i <= n,
                n == h@.len(),
                h@ == self.headers_input@,
                out@ == start + h@.take(i as int).map_values(
                    |c: char|
                        if c == ';' {
                            '\n'
                        } else {
                            c
                        },
                ),
            decreases n - i,
        {
            let c = h.get_char(i);
            push_char(&mut out, if c == ';' { '\n' } else { c });
            i = i + 1;
            assert(h@.take(i as int) =~= h@.take(i - 1).push(c));
            assert(out@ =~= start + h@.take(i as int).map_values(
                |c: char|
                    if c == ';' {
                        '\n'
                    } else {
                        c
                    },
            ));
        }
        assert(h@.take(n as int) =~= h@);
        if n > 0 {
            out.append("\n");
        }
        out.append("\n");
        out.append(self.body_input.as_str());
        assert(out@ =~= form_frame(
            self.method,
            self.url_input@,
            self.headers_input@,
            self.body_input@,
        ));
        out
    }

    /// The request that the form describes: the chosen method, the endpoint of the url field,
    /// the headers written `key: value;key: value`, and the body. Fails as decoding fails on
    /// that frame.
    pub fn request(&self) -> (r: Result<Request, ParseError>)
        ensures
            match r {
                Ok(q) => decode_request_text(
                    form_frame(self.method, self.url_input@, self.headers_input@, self.body_input@),
                ) == Ok::<crate::message::RequestView, ParseError>(q@),
                Err(x) => decode_request_text(
                    form_frame(self.method, self.url_input@, self.headers_input@, self.body_input@),
                ) == Err::<crate::message::RequestView, ParseError>(x),
            },
    {
        let f = self.frame();
        Request::decode(f.as_str())
    }

    /// Where the request goes: the address part of the url field, or the client's own target
    /// when that part is empty.
    pub fn target(&self) -> (r: String)
        ensures
            url_address(self.url_input@).len() > 0 ==> r@ == url_address(self.url_input@),
            url_address(self.url_input@).len() == 0 ==> r@ == self.client.target@,
    {
        let url = chars_of(self.url_input.as_str());
        let slash = find_in(&url, '/', 0);
        proof {
            lemma_find_char_range(url@, '/', 0);
        }
        if slash > 0 {
            self.url_input.as_str().substring_char(0, slash).to_owned()
        } else {
            self.client.target.clone()
        }
    }

    /// Records the outcome of a call: a response joins the messages and clears the error;
    /// a failure becomes the error shown, and the fields stay as they are.
    pub fn record_reply(&mut self, reply: Result<Response, SendError>)
        ensures
            final(self).input_mode == old(self).input_mode,
            final(self).character_index == old(self).character_index,
            final(self).method == old(self).method,
            final(self).url_input@ == old(self).url_input@,
            final(self).headers_input@ == old(self).headers_input@,
            final(self).body_input@ == old(self).body_input@,
            final(self).client.target@ == old(self).client.target@,
            match reply {
                Ok(resp) => {
                    &&& final(self).messages@.len() == old(self).messages@.len() + 1
                    &&& forall|i: int|
                        0 <= i < old(self).messages@.len() ==> final(self).messages@[i]
                            == old(self).messages@[i]
                    &&& final(self).messages@.last()@ == crate::codec::response_text(resp@)
                    &&& final(self).error_message is None
                },
                Err(e) => {
                    &&& final(self).messages@ == old(self).messages@
                    &&& final(self).error_message matches Some(m) && m@ == error_text(e)
                },
            },
    {
        match reply {
            Ok(resp) => {
                self.messages.push(resp.encode());
                self.error_message = None;
            },
            Err(e) => {
                self.error_message = Some(describe(&e));
            },
        }
    }
}

/// The text shown for a failed call.
pub fn describe(e: &SendError) -> (r: String)
    ensures
        r@ == error_text(*e),
{
    match e {
        SendError::Io(m) => m.clone(),
        SendError::Parse(ParseError::MissingSeparator) => "reply has no blank line".to_owned(),
        SendError::Parse(ParseError::MalformedMethod) => "reply has a malformed start line".to_owned(),
        SendError::Parse(ParseError::MalformedStatus) => "reply has an unknown status".to_owned(),
        SendError::Parse(ParseError::MalformedHeader) => "reply has a header without ':'".to_owned(),
    }
}

} // verus!
