use vstd::prelude::*;

use crate::message::{
    headers_view, method_of_text, method_text, status_of_text, status_text, Header, Method,
    ParseError, Request, RequestView, Response, ResponseView, StatusCode,
};

verus! {

/// A header as the codec sees it: (key, value).
pub type HeaderPair = (Seq<char>, Seq<char>);

/// `s` holds no `c`.
pub open spec fn lacks(s: Seq<char>, c: char) -> bool {
    forall|i: int| 0 <= i < s.len() ==> s[i] != c
}

/// The index of the first `c` in `s` at or after `from`, or `s.len()` if there is none.
pub open spec fn find_char(s: Seq<char>, c: char, from: nat) -> nat
    decreases s.len() - from,
{
    if from >= s.len() {
        s.len()
    } else if s[from as int] == c {
        from
    } else {
        find_char(s, c, from + 1)
    }
}

/// One header line on the wire: `KEY: VALUE` and a newline.
pub open spec fn header_line(h: HeaderPair) -> Seq<char> {
    h.0 + seq![':', ' '] + h.1 + seq!['\n']
}

/// The header lines of a message, in order.
pub open spec fn headers_text(hs: Seq<HeaderPair>) -> Seq<char>
    decreases hs.len(),
{
    if hs.len() == 0 {
        Seq::empty()
    } else {
        header_line(hs[0]) + headers_text(hs.drop_first())
    }
}

/// The frame of a request: start line, header lines, blank line, body.
pub open spec fn request_text(r: RequestView) -> Seq<char> {
    method_text(r.method) + seq![' '] + r.endpoint + seq!['\n'] + headers_text(r.headers)
        + seq!['\n'] + r.body
}

/// The frame of a response: status line, header lines, blank line, body.
pub open spec fn response_text(r: ResponseView) -> Seq<char> {
    status_text(r.status_code) + seq!['\n'] + headers_text(r.headers) + seq!['\n'] + r.body
}

/// A header that survives the wire: its key holds no `:` and no newline, its value no newline.
pub open spec fn header_ok(h: HeaderPair) -> bool {
    lacks(h.0, ':') && lacks(h.0, '\n') && lacks(h.1, '\n')
}

/// Every header of `hs` survives the wire.
pub open spec fn headers_ok(hs: Seq<HeaderPair>) -> bool {
    forall|i: int| 0 <= i < hs.len() ==> header_ok(#[trigger] hs[i])
}

/// A request that can be framed: its endpoint holds no newline and every header is framable.
pub open spec fn request_ok(r: RequestView) -> bool {
    lacks(r.endpoint, '\n') && headers_ok(r.headers)
}

/// A response that can be framed: every header is framable.
pub open spec fn response_ok(r: ResponseView) -> bool {
    headers_ok(r.headers)
}

/// A value with one leading space dropped, if it has one.
pub open spec fn strip_space(v: Seq<char>) -> Seq<char> {
    if v.len() > 0 && v[0] == ' ' {
        v.drop_first()
    } else {
        v
    }
}

/// The header on the line `s[lo..hi]`: the key is what stands before the first `:`, the
/// value what follows it, less one leading space. `None` if the line holds no `:`.
pub open spec fn parse_header(s: Seq<char>, lo: nat, hi: nat) -> Option<HeaderPair> {
    let c = find_char(s, ':', lo);
    if c >= hi {
        None
    } else {
        Some((s.subrange(lo as int, c as int), strip_space(s.subrange(c + 1 as int, hi as int))))
    }
}

/// The header lines of `s` from `pos` up to the blank line, and where the body starts.
pub open spec fn parse_headers(s: Seq<char>, pos: nat) -> Result<(Seq<HeaderPair>, nat), ParseError>
    decreases s.len() - pos,
    via parse_headers_decreases
{
    let e = find_char(s, '\n', pos);
    if e >= s.len() {
        Err(ParseError::MissingSeparator)
    } else if e == pos {
        Ok((Seq::empty(), pos + 1))
    } else {
        match parse_header(s, pos, e) {
            None => Err(ParseError::MalformedHeader),
            Some(h) => prepend_header(h, parse_headers(s, e + 1)),
        }
    }
}

/// `parse_headers` moves forward: the next line starts past `pos`.
#[via_fn]
proof fn parse_headers_decreases(s: Seq<char>, pos: nat) {
    if pos <= s.len() {
        lemma_find_char_range(s, '\n', pos);
    }
}

/// Puts the headers `acc` in front of a parse result.
pub open spec fn prepend_headers(
    acc: Seq<HeaderPair>,
    r: Result<(Seq<HeaderPair>, nat), ParseError>,
) -> Result<(Seq<HeaderPair>, nat), ParseError> {
    match r {
        Ok((hs, b)) => Ok((acc + hs, b)),
        Err(x) => Err(x),
    }
}

/// Puts the header `h` in front of a parse result.
pub open spec fn prepend_header(
    h: HeaderPair,
    r: Result<(Seq<HeaderPair>, nat), ParseError>,
) -> Result<(Seq<HeaderPair>, nat), ParseError> {
    prepend_headers(seq![h], r)
}

/// What decoding `s` as a request gives: the start line is a known method, a space and the
/// endpoint; then the header lines, a blank line, and the rest of `s` verbatim as the body.
pub open spec fn decode_request_text(s: Seq<char>) -> Result<RequestView, ParseError> {
    let e = find_char(s, '\n', 0);
    let sp = find_char(s, ' ', 0);
    if e >= s.len() {
        Err(ParseError::MissingSeparator)
    } else if sp >= e {
        Err(ParseError::MalformedMethod)
    } else {
        match method_of_text(s.subrange(0, sp as int)) {
            None => Err(ParseError::MalformedMethod),
            Some(m) => match parse_headers(s, e + 1) {
                Err(x) => Err(x),
                Ok((hs, b)) => Ok(
                    RequestView {
                        method: m,
                        endpoint: s.subrange(sp + 1 as int, e as int),
                        headers: hs,
                        body: s.subrange(b as int, s.len() as int),
                    },
                ),
            },
        }
    }
}

/// What decoding `s` as a response gives: the status line of a known code, then the header
/// lines, a blank line, and the rest of `s` verbatim as the body.
pub open spec fn decode_response_text(s: Seq<char>) -> Result<ResponseView, ParseError> {
    let e = find_char(s, '\n', 0);
    if e >= s.len() {
        Err(ParseError::MissingSeparator)
    } else {
        match status_of_text(s.subrange(0, e as int)) {
            None => Err(ParseError::MalformedStatus),
            Some(c) => match parse_headers(s, e + 1) {
                Err(x) => Err(x),
                Ok((hs, b)) => Ok(
                    ResponseView {
                        status_code: c,
                        headers: hs,
                        body: s.subrange(b as int, s.len() as int),
                    },
                ),
            },
        }
    }
}

/// `find_char` gives an index in range that holds `c`, with no `c` before it, or the length.
pub proof fn lemma_find_char_range(s: Seq<char>, c: char, from: nat)
    requires
        from <= s.len(),
    ensures
        from <= find_char(s, c, from) <= s.len(),
        find_char(s, c, from) < s.len() ==> s[find_char(s, c, from) as int] == c,
        forall|i: int| from <= i < find_char(s, c, from) ==> s[i] != c,
    decreases s.len() - from,
{
    if from < s.len() && s[from as int] != c {
        lemma_find_char_range(s, c, from + 1);
    }
}

/// The first `c` at or after `from` is at `j` when none stands in between.
pub proof fn lemma_find_char_at(s: Seq<char>, c: char, from: nat, j: nat)
    requires
        from <= j <= s.len(),
        forall|i: int| from <= i < j ==> s[i] != c,
        j < s.len() ==> s[j as int] == c,
    ensures
        find_char(s, c, from) == j,
    decreases j - from,
{
    if from < j {
        lemma_find_char_at(s, c, from + 1, j);
    }
}

/// Finds the first `c` in `v` at or after `from`.
pub(crate) fn find_in(v: &Vec<char>, c: char, from: usize) -> (r: usize)
    requires
        from <= v@.len(),
    ensures
        r == find_char(v@, c, from as nat),
{
    let mut i = from;
    while i < v.len() && v[i] != c
        invariant
            from <= i <= v@.len(),
            find_char(v@, c, from as nat) == find_char(v@, c, i as nat),
        decreases v@.len() - i,
    {
        i = i + 1;
    }
    i
}

/// The characters of `s`, in order.
pub(crate) fn chars_of(s: &str) -> (r: Vec<char>)
    ensures
        r@ == s@,
{
    broadcast use vstd::string::axiom_spec_iter;

    let mut v: Vec<char> = Vec::new();
    for c in it: s.chars()
        invariant
            v@.len() == it.index(),
            forall|i: int| 0 <= i < v@.len() ==> v@[i] == it.seq()[i],
    {
        v.push(c);
    }
    assert(v@ =~= s@);
    v
}

/// Header lines are laid out in order: one more header adds its line at the end.
proof fn lemma_headers_text_push(hs: Seq<HeaderPair>, h: HeaderPair)
    ensures
        headers_text(hs.push(h)) == headers_text(hs) + header_line(h),
    decreases hs.len(),
{
    if hs.len() == 0 {
        assert(hs.push(h).drop_first() =~= Seq::<HeaderPair>::empty());
        assert(headers_text(hs.push(h).drop_first()) == Seq::<char>::empty());
        assert(headers_text(hs.push(h)) =~= header_line(h));
    } else {
        assert(hs.push(h).drop_first() =~= hs.drop_first().push(h));
        lemma_headers_text_push(hs.drop_first(), h);
        assert(headers_text(hs.push(h)) =~= headers_text(hs) + header_line(h));
    }
}

/// Appends the header lines of `hs` to `out`.
fn append_headers(out: &mut String, hs: &Vec<Header>)
    ensures
        final(out)@ == old(out)@ + headers_text(headers_view(hs@)),
{
    let ghost start = out@;
    let mut i: usize = 0;
    while i < hs.len()
        invariant
            0 <= i <= hs@.len(),
            out@ == start + headers_text(headers_view(hs@.subrange(0, i as int))),
        decreases hs@.len() - i,
    {
        proof {
            reveal_strlit(": ");
            reveal_strlit("\n");
            lemma_headers_text_push(headers_view(hs@.subrange(0, i as int)), hs@[i as int]@);
            assert(headers_view(hs@.subrange(0, i + 1)) =~= headers_view(
                hs@.subrange(0, i as int),
            ).push(hs@[i as int]@));
        }
        out.append(hs[i].key.as_str());
        out.append(": ");
        out.append(hs[i].value.as_str());
        out.append("\n");
        i = i + 1;
        assert(out@ =~= start + headers_text(headers_view(hs@.subrange(0, i as int))));
    }
    assert(hs@.subrange(0, hs@.len() as int) =~= hs@);
}

impl Request {
    /// The frame of this request: `METHOD ENDPOINT`, the header lines, a blank line, the body.
    pub fn encode(&self) -> (s: String)
        ensures
            s@ == request_text(self@),
    {
        proof {
            reveal_strlit(" ");
            reveal_strlit("\n");
        }
        let mut out = String::new();
        out.append(self.method.as_str());
        out.append(" ");
        out.append(self.endpoint.as_str());
        out.append("\n");
        append_headers(&mut out, &self.headers);
        out.append("\n");
        out.append(self.body.as_str());
        assert(out@ =~= request_text(self@));
        out
    }
}

impl Response {
    /// The frame of this response: the status line, the header lines, a blank line, the body.
    pub fn encode(&self) -> (s: String)
        ensures
            s@ == response_text(self@),
    {
        proof {
            reveal_strlit("\n");
        }
        let mut out = String::new();
        out.append(self.status_code.as_str());
        out.append("\n");
        append_headers(&mut out, &self.headers);
        out.append("\n");
        out.append(self.body.as_str());
        assert(out@ =~= response_text(self@));
        out
    }
}

/// A method token holds no space and no newline, and reads back as its method.
proof fn lemma_method_text(m: Method)
    ensures
        lacks(method_text(m), ' '),
        lacks(method_text(m), '\n'),
        method_of_text(method_text(m)) == Some(m),
{
    let t = method_text(m);
    match m {
        Method::Get => {},
        Method::Post => {
            assert(t.len() != method_text(Method::Get).len());
        },
        Method::Put => {
            assert(t[0] != method_text(Method::Get)[0]);
        },
        Method::Delete => {
            assert(t[0] != method_text(Method::Get)[0]);
            assert(t.len() != method_text(Method::Post).len());
            assert(t[0] != method_text(Method::Put)[0]);
        },
        Method::Patch => {
            assert(t.len() != method_text(Method::Get).len());
            assert(t.len() != method_text(Method::Post).len());
            assert(t.len() != method_text(Method::Put).len());
            assert(t.len() != method_text(Method::Delete).len());
        },
        Method::Head => {
            assert(t.len() != method_text(Method::Get).len());
            assert(t[0] != method_text(Method::Post)[0]);
            assert(t.len() != method_text(Method::Put).len());
            assert(t.len() != method_text(Method::Delete).len());
            assert(t.len() != method_text(Method::Patch).len());
        },
        Method::Options => {
            assert(t.len() != method_text(Method::Get).len());
            assert(t.len() != method_text(Method::Post).len());
            assert(t.len() != method_text(Method::Put).len());
            assert(t.len() != method_text(Method::Delete).len());
            assert(t.len() != method_text(Method::Patch).len());
            assert(t.len() != method_text(Method::Head).len());
        },
    }
}

/// A status line holds no newline, and reads back as its code.
proof fn lemma_status_text(c: StatusCode)
    ensures
        lacks(status_text(c), '\n'),
        status_of_text(status_text(c)) == Some(c),
{
    let t = status_text(c);
    match c {
        StatusCode::OK => {},
        StatusCode::CREATED => {
            assert(t.len() != status_text(StatusCode::OK).len());
        },
        StatusCode::NO_CONTENT => {
            assert(t.len() != status_text(StatusCode::OK).len());
            assert(t.len() != status_text(StatusCode::CREATED).len());
        },
        StatusCode::BAD_REQUEST => {
            assert(t.len() != status_text(StatusCode::OK).len());
            assert(t.len() != status_text(StatusCode::CREATED).len());
            assert(t.len() != status_text(StatusCode::NO_CONTENT).len());
        },
        StatusCode::NOT_FOUND => {
            assert(t.len() != status_text(StatusCode::OK).len());
            assert(t.len() != status_text(StatusCode::CREATED).len());
            assert(t.len() != status_text(StatusCode::NO_CONTENT).len());
            assert(t.len() != status_text(StatusCode::BAD_REQUEST).len());
        },
        StatusCode::METHOD_NOT_ALLOWED => {
            assert(t.len() != status_text(StatusCode::OK).len());
            assert(t.len() != status_text(StatusCode::CREATED).len());
            assert(t.len() != status_text(StatusCode::NO_CONTENT).len());
            assert(t.len() != status_text(StatusCode::BAD_REQUEST).len());
            assert(t.len() != status_text(StatusCode::NOT_FOUND).len());
        },
        StatusCode::INTERNAL_SERVER_ERROR => {
            assert(t.len() != status_text(StatusCode::OK).len());
            assert(t.len() != status_text(StatusCode::CREATED).len());
            assert(t.len() != status_text(StatusCode::NO_CONTENT).len());
            assert(t.len() != status_text(StatusCode::BAD_REQUEST).len());
            assert(t.len() != status_text(StatusCode::NOT_FOUND).len());
            assert(t.len() != status_text(StatusCode::METHOD_NOT_ALLOWED).len());
        },
    }
}

/// Reading one well-formed header line at `pos` gives that header, then whatever follows.
proof fn lemma_parse_one_header(s: Seq<char>, pos: nat, h: HeaderPair, tail: Seq<char>)
    requires
        header_ok(h),
        pos <= s.len(),
        s.subrange(pos as int, s.len() as int) == header_line(h) + tail,
    ensures
        parse_headers(s, pos) == prepend_header(h, parse_headers(s, pos + header_line(h).len())),
{
    let t = s.subrange(pos as int, s.len() as int);
    let line = header_line(h);
    let k = h.0.len();
    let e = pos + k + 2 + h.1.len();
    assert(t.len() == s.len() - pos);
    assert(pos + line.len() <= s.len());
    assert forall|i: int| 0 <= i < line.len() implies s[pos + i] == line[i] by {
        assert(t[i] == s[pos + i]);
    }
    assert forall|i: int| pos <= i < e implies s[i] != '\n' by {
        assert(s[pos + (i - pos)] == line[i - pos]);
    }
    assert(s[e as int] == line[e - pos]);
    lemma_find_char_at(s, '\n', pos, e);
    assert forall|i: int| pos <= i < pos + k implies s[i] != ':' by {
        assert(s[pos + (i - pos)] == line[i - pos]);
    }
    assert(s[pos + k as int] == line[k as int]);
    lemma_find_char_at(s, ':', pos, pos + k);
    assert(s.subrange(pos as int, pos + k as int) =~= h.0);
    assert forall|j: int| 0 <= j < h.1.len() implies s[pos + k + 2 + j] == h.1[j] by {
        assert(s[pos + (k + 2 + j)] == line[k + 2 + j]);
    }
    assert(s[pos + (k + 1) as int] == line[k + 1 as int]);
    assert(s.subrange(pos + k + 1 as int, e as int) =~= seq![' '] + h.1);
    assert(strip_space(seq![' '] + h.1) =~= h.1);
    assert(parse_header(s, pos, e) == Some(h));
    assert(e + 1 == pos + line.len());
    assert(e != pos);
}

/// Reading the well-formed header lines of `hs` at `pos` gives `hs`, then whatever follows.
proof fn lemma_parse_headers_prefix(s: Seq<char>, pos: nat, hs: Seq<HeaderPair>, tail: Seq<char>)
    requires
        headers_ok(hs),
        pos <= s.len(),
        s.subrange(pos as int, s.len() as int) == headers_text(hs) + tail,
    ensures
        parse_headers(s, pos) == prepend_headers(
            hs,
            parse_headers(s, pos + headers_text(hs).len()),
        ),
    decreases hs.len(),
{
    let t = s.subrange(pos as int, s.len() as int);
    let after = parse_headers(s, pos + headers_text(hs).len());
    if hs.len() == 0 {
        assert(headers_text(hs) =~= Seq::<char>::empty());
        match parse_headers(s, pos) {
            Ok((t2, b)) => {
                assert(hs + t2 =~= t2);
            },
            Err(_) => {},
        }
    } else {
        let h = hs[0];
        let line = header_line(h);
        let rest_hs = hs.drop_first();
        assert(header_ok(hs[0]));
        assert(t == line + (headers_text(rest_hs) + tail));
        lemma_parse_one_header(s, pos, h, headers_text(rest_hs) + tail);
        assert(t.len() == s.len() - pos);
        assert(s.subrange(pos + line.len() as int, s.len() as int) =~= t.subrange(
            line.len() as int,
            t.len() as int,
        ));
        assert(t.subrange(line.len() as int, t.len() as int) =~= headers_text(rest_hs) + tail);
        assert(headers_ok(rest_hs)) by {
            assert forall|i: int| 0 <= i < rest_hs.len() implies header_ok(#[trigger] rest_hs[i]) by {
                assert(rest_hs[i] == hs[i + 1]);
            }
        }
        lemma_parse_headers_prefix(s, pos + line.len(), rest_hs, tail);
        assert(headers_text(hs) == line + headers_text(rest_hs));
        match after {
            Ok((t2, b)) => {
                assert(seq![h] + (rest_hs + t2) =~= hs + t2);
            },
            Err(_) => {},
        }
    }
}

/// Reading back the header lines of `hs`, followed by a blank line, gives `hs` and the
/// position just past the blank line.
proof fn lemma_parse_headers_text(s: Seq<char>, pos: nat, hs: Seq<HeaderPair>, rest: Seq<char>)
    requires
        headers_ok(hs),
        pos <= s.len(),
        s.subrange(pos as int, s.len() as int) == headers_text(hs) + seq!['\n'] + rest,
    ensures
        parse_headers(s, pos) == Ok::<(Seq<HeaderPair>, nat), ParseError>(
            (hs, pos + headers_text(hs).len() + 1),
        ),
{
    let t = s.subrange(pos as int, s.len() as int);
    let p = pos + headers_text(hs).len();
    assert(t == headers_text(hs) + (seq!['\n'] + rest));
    lemma_parse_headers_prefix(s, pos, hs, seq!['\n'] + rest);
    assert(t.len() == s.len() - pos);
    assert(t[headers_text(hs).len() as int] == '\n');
    assert(s[p as int] == t[headers_text(hs).len() as int]);
    lemma_find_char_at(s, '\n', p, p);
    assert(hs + Seq::<HeaderPair>::empty() =~= hs);
}

/// A header line without `:` makes decoding fail, wherever it stands among well-formed header
/// lines, whatever follows it.
pub proof fn lemma_decode_header_without_colon(
    start: Seq<char>,
    hs: Seq<HeaderPair>,
    line: Seq<char>,
    rest: Seq<char>,
)
    requires
        lacks(start, '\n'),
        headers_ok(hs),
        line.len() > 0,
        lacks(line, '\n'),
        lacks(line, ':'),
    ensures
        decode_request_text(start + seq!['\n'] + headers_text(hs) + line + seq!['\n'] + rest) is Err,
        decode_response_text(start + seq!['\n'] + headers_text(hs) + line + seq!['\n'] + rest) is Err,
{
    let s = start + seq!['\n'] + headers_text(hs) + line + seq!['\n'] + rest;
    let e = start.len();
    let pos = e + 1;
    let p = pos + headers_text(hs).len();
    let q = p + line.len();
    assert forall|i: int| 0 <= i < e implies s[i] != '\n' by {
        assert(s[i] == start[i]);
    }
    lemma_find_char_at(s, '\n', 0, e);
    assert(s.subrange(pos as int, s.len() as int) =~= headers_text(hs) + (line + seq!['\n']
        + rest));
    lemma_parse_headers_prefix(s, pos, hs, line + seq!['\n'] + rest);
    assert forall|i: int| p <= i < q implies s[i] != '\n' && s[i] != ':' by {
        assert(s[i] == line[i - p]);
    }
    assert(s[q as int] == '\n');
    lemma_find_char_at(s, '\n', p, q);
    lemma_find_char_range(s, ':', p);
    assert(parse_headers(s, p) == Err::<(Seq<HeaderPair>, nat), ParseError>(
        ParseError::MalformedHeader,
    ));
}

/// A text that does not begin with a known method token and a space never decodes as a
/// request.
pub proof fn lemma_decode_unknown_method(s: Seq<char>)
    requires
        forall|m: Method|
            !(#[trigger] method_text(m).len() < s.len() && s.take(method_text(m).len() as int)
                == method_text(m) && s[method_text(m).len() as int] == ' '),
    ensures
        decode_request_text(s) is Err,
{
    let e = find_char(s, '\n', 0);
    let sp = find_char(s, ' ', 0);
    lemma_find_char_range(s, '\n', 0);
    lemma_find_char_range(s, ' ', 0);
    if e < s.len() && sp < e {
        if let Some(m) = method_of_text(s.subrange(0, sp as int)) {
            assert(s.subrange(0, sp as int) == method_text(m));
            assert(s.take(method_text(m).len() as int) =~= s.subrange(0, sp as int));
            assert(false);
        }
    }
}

/// Round trip of requests: decoding the frame of a framable request gives that request back,
/// whatever its body holds.
pub proof fn lemma_request_round_trip(r: RequestView)
    requires
        request_ok(r),
    ensures
        decode_request_text(request_text(r)) == Ok::<RequestView, ParseError>(r),
{
    let s = request_text(r);
    let mt = method_text(r.method);
    lemma_method_text(r.method);
    let ml = mt.len();
    let e = ml + 1 + r.endpoint.len();
    let head = mt + seq![' '] + r.endpoint + seq!['\n'];
    assert(s == head + (headers_text(r.headers) + seq!['\n'] + r.body));
    assert forall|i: int| 0 <= i < head.len() implies s[i] == head[i] by {}
    assert forall|i: int| 0 <= i < e implies s[i] != '\n' by {
        assert(s[i] == head[i]);
        if i > ml {
            assert(head[i] == r.endpoint[i - ml - 1]);
        }
    }
    assert(s[e as int] == head[e as int]);
    lemma_find_char_at(s, '\n', 0, e);
    assert forall|i: int| 0 <= i < ml implies s[i] != ' ' by {
        assert(s[i] == head[i]);
    }
    assert(s[ml as int] == head[ml as int]);
    lemma_find_char_at(s, ' ', 0, ml);
    assert(s.subrange(0, ml as int) =~= mt);
    assert(s.subrange(ml + 1 as int, e as int) =~= r.endpoint);
    assert(s.subrange(e + 1 as int, s.len() as int) =~= headers_text(r.headers) + seq!['\n']
        + r.body);
    lemma_parse_headers_text(s, e + 1, r.headers, r.body);
    assert(s.subrange(e + 1 + headers_text(r.headers).len() + 1 as int, s.len() as int) =~= r.body);
}

/// Round trip of responses: decoding the frame of a framable response gives that response
/// back, whatever its body holds.
pub proof fn lemma_response_round_trip(r: ResponseView)
    requires
        response_ok(r),
    ensures
        decode_response_text(response_text(r)) == Ok::<ResponseView, ParseError>(r),
{
    let s = response_text(r);
    let st = status_text(r.status_code);
    lemma_status_text(r.status_code);
    let e = st.len();
    let head = st + seq!['\n'];
    assert(s == head + (headers_text(r.headers) + seq!['\n'] + r.body));
    assert forall|i: int| 0 <= i < e implies s[i] != '\n' by {
        assert(s[i] == head[i]);
    }
    assert(s[e as int] == head[e as int]);
    lemma_find_char_at(s, '\n', 0, e);
    assert(s.subrange(0, e as int) =~= st);
    assert(s.subrange(e + 1 as int, s.len() as int) =~= headers_text(r.headers) + seq!['\n']
        + r.body);
    lemma_parse_headers_text(s, e + 1, r.headers, r.body);
    assert(s.subrange(e + 1 + headers_text(r.headers).len() + 1 as int, s.len() as int) =~= r.body);
}

/// `s` holds a blank line: two newlines in a row.
pub open spec fn has_blank_line(s: Seq<char>) -> bool {
    exists|i: int| 0 <= i && i + 1 < s.len() && #[trigger] s[i] == '\n' && s[i + 1] == '\n'
}

/// Header lines that read back successfully end with a blank line.
proof fn lemma_parse_headers_blank_line(s: Seq<char>, pos: nat)
    requires
        1 <= pos <= s.len(),
        s[pos - 1] == '\n',
        parse_headers(s, pos) is Ok,
    ensures
        has_blank_line(s),
    decreases s.len() - pos,
{
    let e = find_char(s, '\n', pos);
    lemma_find_char_range(s, '\n', pos);
    if e == pos {
        assert(s[pos - 1] == '\n' && s[pos - 1 + 1] == '\n');
    } else {
        lemma_parse_headers_blank_line(s, e + 1);
    }
}

/// A text without a blank line decodes neither as a request nor as a response.
pub proof fn lemma_decode_needs_blank_line(s: Seq<char>)
    requires
        !has_blank_line(s),
    ensures
        decode_request_text(s) is Err,
        decode_response_text(s) is Err,
{
    let e = find_char(s, '\n', 0);
    lemma_find_char_range(s, '\n', 0);
    if e < s.len() && parse_headers(s, e + 1) is Ok {
        lemma_parse_headers_blank_line(s, e + 1);
    }
}

/// Reads the header lines of `text` from `pos` up to the blank line; returns them and
/// where the body starts.
fn decode_headers(text: &str, v: &Vec<char>, pos: usize) -> (r: Result<
    (Vec<Header>, usize),
    ParseError,
>)
    requires
        v@ == text@,
        pos <= v@.len(),
    ensures
        match r {
            Ok((hs, b)) => {
                &&& parse_headers(v@, pos as nat) == Ok::<(Seq<HeaderPair>, nat), ParseError>(
                    (headers_view(hs@), b as nat),
                )
                &&& b <= v@.len()
            },
            Err(x) => parse_headers(v@, pos as nat) == Err::<(Seq<HeaderPair>, nat), ParseError>(x),
        },
{
    let mut hs: Vec<Header> = Vec::new();
    let mut p = pos;
    loop
        invariant
            v@ == text@,
            pos <= p <= v@.len(),
            parse_headers(v@, pos as nat) == prepend_headers(
                headers_view(hs@),
                parse_headers(v@, p as nat),
            ),
        decreases v@.len() - p,
    {
        let e = find_in(v, '\n', p);
        proof {
            lemma_find_char_range(v@, '\n', p as nat);
        }
        if e >= v.len() {
            return Err(ParseError::MissingSeparator);
        }
        if e == p {
            assert(headers_view(hs@) + Seq::<HeaderPair>::empty() =~= headers_view(hs@));
            return Ok((hs, p + 1));
        }
        let c = find_in(v, ':', p);
        proof {
            lemma_find_char_range(v@, ':', p as nat);
        }
        if c >= e {
            return Err(ParseError::MalformedHeader);
        }
        let key = text.substring_char(p, c).to_owned();
        let value = if c + 1 < e && v[c + 1] == ' ' {
            text.substring_char(c + 2, e).to_owned()
        } else {
            text.substring_char(c + 1, e).to_owned()
        };
        let ghost old_hs = headers_view(hs@);
        let ghost h = (key@, value@);
        proof {
            let rest = v@.subrange(c + 1, e as int);
            assert(rest.len() > 0 ==> rest[0] == v@[c + 1]);
            assert(rest.len() > 0 ==> rest.drop_first() =~= v@.subrange(c + 2, e as int));
            assert(parse_header(v@, p as nat, e as nat) == Some(h));
        }
        hs.push(Header { key, value });
        proof {
            assert(headers_view(hs@) =~= old_hs.push(h));
            match parse_headers(v@, (e + 1) as nat) {
                Ok((t, b)) => {
                    assert(old_hs + (seq![h] + t) =~= old_hs.push(h) + t);
                },
                Err(x) => {},
            }
        }
        p = e + 1;
    }
}

impl Request {
    /// Decodes a request frame. Fails on a missing blank line, an unknown method token or a
    /// header line without `:`; everything after the blank line is the body, verbatim.
    pub fn decode(text: &str) -> (r: Result<Request, ParseError>)
        ensures
            match r {
                Ok(q) => decode_request_text(text@) == Ok::<RequestView, ParseError>(q@),
                Err(x) => decode_request_text(text@) == Err::<RequestView, ParseError>(x),
            },
    {
        let v = chars_of(text);
        let e = find_in(&v, '\n', 0);
        let sp = find_in(&v, ' ', 0);
        proof {
            lemma_find_char_range(v@, '\n', 0);
            lemma_find_char_range(v@, ' ', 0);
        }
        if e >= v.len() {
            return Err(ParseError::MissingSeparator);
        }
        if sp >= e {
            return Err(ParseError::MalformedMethod);
        }
        let method = match Method::parse(text.substring_char(0, sp)) {
            None => {
                return Err(ParseError::MalformedMethod);
            },
            Some(m) => m,
        };
        match decode_headers(text, &v, e + 1) {
            Err(x) => Err(x),
            Ok((headers, b)) => {
                let endpoint = text.substring_char(sp + 1, e).to_owned();
                let body = text.substring_char(b, v.len()).to_owned();
                proof {
                    lemma_find_char_range(v@, '\n', (e + 1) as nat);
                }
                Ok(Request { method, endpoint, headers, body })
            },
        }
    }
}

impl Response {
    /// Decodes a response frame. Fails on a missing blank line, an unknown status line or a
    /// header line without `:`; everything after the blank line is the body, verbatim.
    pub fn decode(text: &str) -> (r: Result<Response, ParseError>)
        ensures
            match r {
                Ok(q) => decode_response_text(text@) == Ok::<ResponseView, ParseError>(q@),
                Err(x) => decode_response_text(text@) == Err::<ResponseView, ParseError>(x),
            },
    {
        let v = chars_of(text);
        let e = find_in(&v, '\n', 0);
        proof {
            lemma_find_char_range(v@, '\n', 0);
        }
        if e >= v.len() {
            return Err(ParseError::MissingSeparator);
        }
        let status_code = match StatusCode::parse(text.substring_char(0, e)) {
            None => {
                return Err(ParseError::MalformedStatus);
            },
            Some(c) => c,
        };
        match decode_headers(text, &v, e + 1) {
            Err(x) => Err(x),
            Ok((headers, b)) => {
                let body = text.substring_char(b, v.len()).to_owned();
                Ok(Response { status_code, headers, body })
            },
        }
    }
}

} // verus!
