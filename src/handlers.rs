use vstd::prelude::*;

use crate::codec::request_text;
use crate::message::{headers_view, Header, Request, Response, StatusCode};

verus! {

/// A copy of `hs`, header for header.
pub fn copy_headers(hs: &Vec<Header>) -> (r: Vec<Header>)
    ensures
        headers_view(r@) == headers_view(hs@),
{
    let mut out: Vec<Header> = Vec::new();
    let mut i: usize = 0;
    while i < hs.len()
        invariant
            0 <= i <= hs@.len(),
            out@.len() == i,
            forall|j: int| 0 <= j < i ==> (#[trigger] out@[j])@ == hs@[j]@,
        decreases hs@.len() - i,
    {
        out.push(Header { key: hs[i].key.clone(), value: hs[i].value.clone() });
        i = i + 1;
    }
    assert(headers_view(out@) =~= headers_view(hs@));
    out
}

/// Greets whoever asks: status OK, no headers, a small JSON body.
pub fn process(_req: Request) -> (r: Response)
    ensures
        r.status_code == StatusCode::OK,
        r.headers@.len() == 0,
        r.body@ == "{\"Hello,\": \" World!\"}"@,
{
    Response {
        status_code: StatusCode::OK,
        headers: Vec::new(),
        body: "{\"Hello,\": \" World!\"}".to_owned(),
    }
}

/// Echoes a request: status OK, the request's own headers, and its frame as the body.
pub fn echo(req: Request) -> (r: Response)
    ensures
        r.status_code == StatusCode::OK,
        headers_view(r.headers@) == headers_view(req.headers@),
        r.body@ == request_text(req@),
{
    Response { status_code: StatusCode::OK, headers: copy_headers(&req.headers), body: req.encode() }
}

} // verus!
