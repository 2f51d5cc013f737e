use vstd::prelude::*;

use crate::codec::{decode_request_text, response_text};
use crate::message::{Request, Response};
use crate::router::{bad_request, bad_request_view, Router};

verus! {

/// What a connection answers to the text it read: if the text decodes as a request, the frame
/// of an answer of the table to that request; if not, the frame of the bad-request response.
pub open spec fn served<H: Fn(Request) -> Response>(router: &Router<H>, text: Seq<char>, out: Seq<char>) -> bool {
    match decode_request_text(text) {
        Err(_) => out == response_text(bad_request_view()),
        Ok(v) => exists|q: Request, resp: Response|
            q@ == v && #[trigger] router.answers(q, resp) && out == response_text(resp@),
    }
}

/// Handles one connection's request frame: decodes it, dispatches it and encodes the
/// answer. A frame that does not decode is answered with a bad-request response, never
/// dropped.
pub fn handle_frame<H: Fn(Request) -> Response>(router: &Router<H>, text: &str) -> (out: String)
    requires
        router.handlers_total(),
    ensures
        served(router, text@, out@),
{
    match Request::decode(text) {
        Err(_) => bad_request().encode(),
        Ok(req) => {
            let ghost q = req;
            let resp = router.dispatch(req);
            let out = resp.encode();
            assert(q@ == decode_request_text(text@)->Ok_0 && router.answers(q, resp) && out@
                == response_text(resp@));
            out
        },
    }
}

} // verus!
