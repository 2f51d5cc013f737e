use vstd::prelude::*;

verus! {

/// The request methods this protocol knows. Any other token is a decode error.
#[derive(Clone, Copy, Debug, PartialEq, Eq, Structural)]
pub enum Method {
    Get,
    Post,
    Put,
    Delete,
    Patch,
    Head,
    Options,
}

/// The textual token of a method, as it stands on the wire (case-sensitive).
pub open spec fn method_text(m: Method) -> Seq<char> {
    match m {
        Method::Get => seq!['G', 'E', 'T'],
        Method::Post => seq!['P', 'O', 'S', 'T'],
        Method::Put => seq!['P', 'U', 'T'],
        Method::Delete => seq!['D', 'E', 'L', 'E', 'T', 'E'],
        Method::Patch => seq!['P', 'A', 'T', 'C', 'H'],
        Method::Head => seq!['H', 'E', 'A', 'D'],
        Method::Options => seq!['O', 'P', 'T', 'I', 'O', 'N', 'S'],
    }
}

/// The method whose token is exactly `t`, if any.
pub open spec fn method_of_text(t: Seq<char>) -> Option<Method> {
    if t == method_text(Method::Get) {
        Some(Method::Get)
    } else if t == method_text(Method::Post) {
        Some(Method::Post)
    } else if t == method_text(Method::Put) {
        Some(Method::Put)
    } else if t == method_text(Method::Delete) {
        Some(Method::Delete)
    } else if t == method_text(Method::Patch) {
        Some(Method::Patch)
    } else if t == method_text(Method::Head) {
        Some(Method::Head)
    } else if t == method_text(Method::Options) {
        Some(Method::Options)
    } else {
        None
    }
}

impl Method {
    /// The wire token of this method.
    pub fn as_str(&self) -> (r: &'static str)
        ensures
            r@ == method_text(*self),
    {
        proof {
            reveal_strlit("GET");
            reveal_strlit("POST");
            reveal_strlit("PUT");
            reveal_strlit("DELETE");
            reveal_strlit("PATCH");
            reveal_strlit("HEAD");
            reveal_strlit("OPTIONS");
        }
        match self {
            Method::Get => "GET",
            Method::Post => "POST",
            Method::Put => "PUT",
            Method::Delete => "DELETE",
            Method::Patch => "PATCH",
            Method::Head => "HEAD",
            Method::Options => "OPTIONS",
        }
    }

    /// Parses a wire token; `None` for anything that is not exactly a known token.
    pub fn parse(t: &str) -> (r: Option<Method>)
        ensures
            r == method_of_text(t@),
    {
        let all = [
            Method::Get,
            Method::Post,
            Method::Put,
            Method::Delete,
            Method::Patch,
            Method::Head,
            Method::Options,
        ];
        let tok = t.to_owned();
        let mut i: usize = 0;
        while i < 7
            invariant
                0 <= i <= 7,
                tok@ == t@,
                all@ == seq![
                    Method::Get,
                    Method::Post,
                    Method::Put,
                    Method::Delete,
                    Method::Patch,
                    Method::Head,
                    Method::Options,
                ],
                forall|j: int| 0 <= j < i ==> t@ != method_text(#[trigger] all@[j]),
            decreases 7 - i,
        {
            let cand = all[i].as_str().to_owned();
            if tok == cand {
                return Some(all[i]);
            }
            i = i + 1;
        }
        assert(t@ != method_text(all@[0]));
        assert(t@ != method_text(all@[1]));
        assert(t@ != method_text(all@[2]));
        assert(t@ != method_text(all@[3]));
        assert(t@ != method_text(all@[4]));
        assert(t@ != method_text(all@[5]));
        assert(t@ != method_text(all@[6]));
        None
    }
}

/// The status codes this protocol knows, each with its number and reason phrase.
#[allow(non_camel_case_types)]
#[derive(Clone, Copy, Debug, PartialEq, Eq, Structural)]
pub enum StatusCode {
    OK,
    CREATED,
    NO_CONTENT,
    BAD_REQUEST,
    NOT_FOUND,
    METHOD_NOT_ALLOWED,
    INTERNAL_SERVER_ERROR,
}

/// The numeric value of a status code.
pub open spec fn status_number(c: StatusCode) -> u16 {
    match c {
        StatusCode::OK => 200,
        StatusCode::CREATED => 201,
        StatusCode::NO_CONTENT => 204,
        StatusCode::BAD_REQUEST => 400,
        StatusCode::NOT_FOUND => 404,
        StatusCode::METHOD_NOT_ALLOWED => 405,
        StatusCode::INTERNAL_SERVER_ERROR => 500,
    }
}

/// The status line of a status code: its number, a space, its reason phrase.
pub open spec fn status_text(c: StatusCode) -> Seq<char> {
    match c {
        StatusCode::OK => seq!['2', '0', '0', ' ', 'O', 'K'],
        StatusCode::CREATED => seq!['2', '0', '1', ' ', 'C', 'r', 'e', 'a', 't', 'e', 'd'],
        StatusCode::NO_CONTENT => seq![
            '2', '0', '4', ' ', 'N', 'o', ' ', 'C', 'o', 'n', 't', 'e', 'n', 't',
        ],
        StatusCode::BAD_REQUEST => seq![
            '4', '0', '0', ' ', 'B', 'a', 'd', ' ', 'R', 'e', 'q', 'u', 'e', 's', 't',
        ],
        StatusCode::NOT_FOUND => seq!['4', '0', '4', ' ', 'N', 'o', 't', ' ', 'F', 'o', 'u', 'n', 'd'],
        StatusCode::METHOD_NOT_ALLOWED => seq![
            '4', '0', '5', ' ', 'M', 'e', 't', 'h', 'o', 'd', ' ', 'N', 'o', 't', ' ', 'A', 'l',
            'l', 'o', 'w', 'e', 'd',
        ],
        StatusCode::INTERNAL_SERVER_ERROR => seq![
            '5', '0', '0', ' ', 'I', 'n', 't', 'e', 'r', 'n', 'a', 'l', ' ', 'S', 'e', 'r', 'v',
            'e', 'r', ' ', 'E', 'r', 'r', 'o', 'r',
        ],
    }
}

/// The status code whose status line is exactly `t`, if any.
pub open spec fn status_of_text(t: Seq<char>) -> Option<StatusCode> {
    if t == status_text(StatusCode::OK) {
        Some(StatusCode::OK)
    } else if t == status_text(StatusCode::CREATED) {
        Some(StatusCode::CREATED)
    } else if t == status_text(StatusCode::NO_CONTENT) {
        Some(StatusCode::NO_CONTENT)
    } else if t == status_text(StatusCode::BAD_REQUEST) {
        Some(StatusCode::BAD_REQUEST)
    } else if t == status_text(StatusCode::NOT_FOUND) {
        Some(StatusCode::NOT_FOUND)
    } else if t == status_text(StatusCode::METHOD_NOT_ALLOWED) {
        Some(StatusCode::METHOD_NOT_ALLOWED)
    } else if t == status_text(StatusCode::INTERNAL_SERVER_ERROR) {
        Some(StatusCode::INTERNAL_SERVER_ERROR)
    } else {
        None
    }
}

impl StatusCode {
    /// The numeric value of this code.
    pub fn code(&self) -> (r: u16)
        ensures
            r == status_number(*self),
    {
        match self {
            StatusCode::OK => 200,
            StatusCode::CREATED => 201,
            StatusCode::NO_CONTENT => 204,
            StatusCode::BAD_REQUEST => 400,
            StatusCode::NOT_FOUND => 404,
            StatusCode::METHOD_NOT_ALLOWED => 405,
            StatusCode::INTERNAL_SERVER_ERROR => 500,
        }
    }

    /// The status line of this code, as it stands on the wire.
    pub fn as_str(&self) -> (r: &'static str)
        ensures
            r@ == status_text(*self),
    {
        proof {
            reveal_strlit("200 OK");
            reveal_strlit("201 Created");
            reveal_strlit("204 No Content");
            reveal_strlit("400 Bad Request");
            reveal_strlit("404 Not Found");
            reveal_strlit("405 Method Not Allowed");
            reveal_strlit("500 Internal Server Error");
        }
        match self {
            StatusCode::OK => "200 OK",
            StatusCode::CREATED => "201 Created",
            StatusCode::NO_CONTENT => "204 No Content",
            StatusCode::BAD_REQUEST => "400 Bad Request",
            StatusCode::NOT_FOUND => "404 Not Found",
            StatusCode::METHOD_NOT_ALLOWED => "405 Method Not Allowed",
            StatusCode::INTERNAL_SERVER_ERROR => "500 Internal Server Error",
        }
    }

    /// Parses a status line; `None` for anything that is not exactly a known one.
    pub fn parse(t: &str) -> (r: Option<StatusCode>)
        ensures
            r == status_of_text(t@),
    {
        let all = [
            StatusCode::OK,
            StatusCode::CREATED,
            StatusCode::NO_CONTENT,
            StatusCode::BAD_REQUEST,
            StatusCode::NOT_FOUND,
            StatusCode::METHOD_NOT_ALLOWED,
            StatusCode::INTERNAL_SERVER_ERROR,
        ];
        let line = t.to_owned();
        let mut i: usize = 0;
        while i < 7
            invariant
                0 <= i <= 7,
                line@ == t@,
                all@ == seq![
                    StatusCode::OK,
                    StatusCode::CREATED,
                    StatusCode::NO_CONTENT,
                    StatusCode::BAD_REQUEST,
                    StatusCode::NOT_FOUND,
                    StatusCode::METHOD_NOT_ALLOWED,
                    StatusCode::INTERNAL_SERVER_ERROR,
                ],
                forall|j: int| 0 <= j < i ==> t@ != status_text(#[trigger] all@[j]),
            decreases 7 - i,
        {
            let cand = all[i].as_str().to_owned();
            if line == cand {
                return Some(all[i]);
            }
            i = i + 1;
        }
        assert(t@ != status_text(all@[0]));
        assert(t@ != status_text(all@[1]));
        assert(t@ != status_text(all@[2]));
        assert(t@ != status_text(all@[3]));
        assert(t@ != status_text(all@[4]));
        assert(t@ != status_text(all@[5]));
        assert(t@ != status_text(all@[6]));
        None
    }
}

/// One header line: a key and a value, both kept verbatim.
#[derive(Clone, Debug, PartialEq, Eq)]
pub struct Header {
    pub key: String,
    pub value: String,
}

impl View for Header {
    type V = (Seq<char>, Seq<char>);

    open spec fn view(&self) -> (Seq<char>, Seq<char>) {
        (self.key@, self.value@)
    }
}

/// The headers of a message as a sequence of (key, value) pairs, order and duplicates kept.
pub open spec fn headers_view(hs: Seq<Header>) -> Seq<(Seq<char>, Seq<char>)> {
    hs.map_values(|h: Header| h@)
}

/// A request: method, endpoint, ordered headers and an opaque body.
#[derive(Clone, Debug, PartialEq, Eq)]
pub struct Request {
    pub method: Method,
    pub endpoint: String,
    pub headers: Vec<Header>,
    pub body: String,
}

/// The mathematical value of a request.
pub struct RequestView {
    pub method: Method,
    pub endpoint: Seq<char>,
    pub headers: Seq<(Seq<char>, Seq<char>)>,
    pub body: Seq<char>,
}

impl View for Request {
    type V = RequestView;

    open spec fn view(&self) -> RequestView {
        RequestView {
            method: self.method,
            endpoint: self.endpoint@,
            headers: headers_view(self.headers@),
            body: self.body@,
        }
    }
}

/// A response: status code, ordered headers and an opaque body.
#[derive(Clone, Debug, PartialEq, Eq)]
pub struct Response {
    pub status_code: StatusCode,
    pub headers: Vec<Header>,
    pub body: String,
}

/// The mathematical value of a response.
pub struct ResponseView {
    pub status_code: StatusCode,
    pub headers: Seq<(Seq<char>, Seq<char>)>,
    pub body: Seq<char>,
}

impl View for Response {
    type V = ResponseView;

    open spec fn view(&self) -> ResponseView {
        ResponseView {
            status_code: self.status_code,
            headers: headers_view(self.headers@),
            body: self.body@,
        }
    }
}

/// Why a frame could not be decoded.
#[derive(Clone, Copy, Debug, PartialEq, Eq, Structural)]
pub enum ParseError {
    /// The input ends before the blank line that separates the head from the body.
    MissingSeparator,
    /// The start line does not begin with a known method token followed by a space.
    MalformedMethod,
    /// The status line is not the line of a known status code.
    MalformedStatus,
    /// A header line holds no `:`.
    MalformedHeader,
}

} // verus!
