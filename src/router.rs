use vstd::prelude::*;

use crate::message::{Method, Request, Response, ResponseView, StatusCode};

verus! {

/// One entry of the dispatch table: requests for `path` with `method` go to `handler`.
pub struct Route<H> {
    pub path: String,
    pub method: Method,
    pub handler: H,
}

/// The dispatch table, in registration order. When two entries share a (path, method)
/// pair, the one registered first wins.
pub struct Router<H> {
    pub routes: Vec<Route<H>>,
}

/// The (path, method) pair that an entry answers to.
pub open spec fn route_key<H>(r: Route<H>) -> (Seq<char>, Method) {
    (r.path@, r.method)
}

/// The index of the first entry of `keys` at or after `from` that is `(path, method)`.
pub open spec fn first_match(
    keys: Seq<(Seq<char>, Method)>,
    path: Seq<char>,
    method: Method,
    from: nat,
) -> Option<nat>
    decreases keys.len() - from,
{
    if from >= keys.len() {
        None
    } else if keys[from as int] == (path, method) {
        Some(from)
    } else {
        first_match(keys, path, method, from + 1)
    }
}

/// Which entry of the table `keys` a request for `path` with `method` resolves to;
/// `None` means the built-in not-found handler.
pub open spec fn resolve_index(keys: Seq<(Seq<char>, Method)>, path: Seq<char>, method: Method) -> Option<nat> {
    first_match(keys, path, method, 0)
}

/// What the built-in not-found handler answers.
pub open spec fn not_found_view() -> ResponseView {
    ResponseView { status_code: StatusCode::NOT_FOUND, headers: Seq::empty(), body: Seq::empty() }
}

/// The response given to a request that could not be decoded.
pub open spec fn bad_request_view() -> ResponseView {
    ResponseView { status_code: StatusCode::BAD_REQUEST, headers: Seq::empty(), body: Seq::empty() }
}

/// The answer of the built-in not-found handler.
pub fn not_found() -> (r: Response)
    ensures
        r@ == not_found_view(),
{
    let r = Response { status_code: StatusCode::NOT_FOUND, headers: Vec::new(), body: String::new() };
    assert(r@.headers =~= Seq::empty());
    r
}

/// The answer to a request that could not be decoded.
pub fn bad_request() -> (r: Response)
    ensures
        r@ == bad_request_view(),
{
    let r = Response { status_code: StatusCode::BAD_REQUEST, headers: Vec::new(), body: String::new() };
    assert(r@.headers =~= Seq::empty());
    r
}

proof fn lemma_first_match(keys: Seq<(Seq<char>, Method)>, path: Seq<char>, method: Method, from: nat)
    ensures
        match first_match(keys, path, method, from) {
            Some(i) => from <= i < keys.len() && keys[i as int] == (path, method) && forall|j: int|
                from <= j < i ==> keys[j] != (path, method),
            None => forall|j: int| from <= j < keys.len() ==> keys[j] != (path, method),
        },
    decreases keys.len() - from,
{
    if from < keys.len() && keys[from as int] != (path, method) {
        lemma_first_match(keys, path, method, from + 1);
    }
}

proof fn lemma_first_match_at(
    keys: Seq<(Seq<char>, Method)>,
    path: Seq<char>,
    method: Method,
    from: nat,
    i: nat,
)
    requires
        from <= i <= keys.len(),
        forall|j: int| from <= j < i ==> keys[j] != (path, method),
        i < keys.len() ==> keys[i as int] == (path, method),
    ensures
        first_match(keys, path, method, from) == (if i < keys.len() { Some(i) } else { None::<nat> }),
    decreases i - from,
{
    if from < i {
        lemma_first_match_at(keys, path, method, from + 1, i);
    }
}

impl<H> Router<H> {
    /// The (path, method) pairs of the table, in registration order.
    pub open spec fn keys(&self) -> Seq<(Seq<char>, Method)> {
        self.routes@.map_values(|r: Route<H>| route_key(r))
    }

    /// An empty table: every request resolves to the not-found handler.
    pub fn new() -> (r: Router<H>)
        ensures
            r.routes@.len() == 0,
    {
        Router { routes: Vec::new() }
    }

    /// Registers `handler` for `path` and `method`, after the entries already there.
    pub fn add_endpoint(self, path: String, method: Method, handler: H) -> (r: Router<H>)
        ensures
            r.routes@.len() == self.routes@.len() + 1,
            forall|i: int| 0 <= i < self.routes@.len() ==> r.routes@[i] == self.routes@[i],
            r.routes@.last().path@ == path@,
            r.routes@.last().method == method,
            r.routes@.last().handler == handler,
            r.keys() == self.keys().push((path@, method)),
    {
        let mut routes = self.routes;
        routes.push(Route { path, method, handler });
        let r = Router { routes };
        assert(r.keys() =~= self.keys().push((path@, method)));
        r
    }

    /// The entry that a request for `path` with `method` goes to: the first one registered
    /// for exactly that pair, or `None` for the not-found handler.
    pub fn resolve_route(&self, path: &str, method: Method) -> (r: Option<usize>)
        ensures
            match resolve_index(self.keys(), path@, method) {
                Some(i) => i < self.routes@.len() && (r matches Some(j) && j == i),
                None => r is None,
            },
    {
        let target = path.to_owned();
        assert(self.keys().len() == self.routes@.len());
        let mut i: usize = 0;
        while i < self.routes.len()
            invariant
                0 <= i <= self.routes@.len(),
                target@ == path@,
                forall|j: int| 0 <= j < i ==> self.keys()[j] != (path@, method),
            decreases self.routes@.len() - i,
        {
            let route = &self.routes[i];
            if route.method == method && route.path == target {
                proof {
                    lemma_first_match_at(self.keys(), path@, method, 0, i as nat);
                }
                return Some(i);
            }
            assert(self.keys()[i as int] == route_key(self.routes@[i as int]));
            i = i + 1;
        }
        proof {
            lemma_first_match_at(self.keys(), path@, method, 0, i as nat);
        }
        None
    }

    /// The entry that `req` goes to, by its endpoint and method.
    pub fn resolve(&self, req: &Request) -> (r: Option<usize>)
        ensures
            match resolve_index(self.keys(), req.endpoint@, req.method) {
                Some(i) => i < self.routes@.len() && (r matches Some(j) && j == i),
                None => r is None,
            },
    {
        self.resolve_route(req.endpoint.as_str(), req.method)
    }
}

impl<H: Fn(Request) -> Response> Router<H> {
    /// Every handler of the table accepts every request.
    pub open spec fn handlers_total(&self) -> bool {
        forall|i: int, q: Request|
            0 <= i < self.routes@.len() ==> #[trigger] call_requires(self.routes@[i].handler, (q,))
    }

    /// `resp` is a possible answer of the table to `req`: what the resolved handler returns,
    /// or the not-found answer.
    pub open spec fn answers(&self, req: Request, resp: Response) -> bool {
        match resolve_index(self.keys(), req.endpoint@, req.method) {
            Some(i) => call_ensures(self.routes@[i as int].handler, (req,), resp),
            None => resp@ == not_found_view(),
        }
    }

    /// Hands `req` to the handler it resolves to, or to the not-found handler.
    pub fn dispatch(&self, req: Request) -> (r: Response)
        requires
            self.handlers_total(),
        ensures
            self.answers(req, r),
    {
        proof {
            lemma_first_match(self.keys(), req.endpoint@, req.method, 0);
        }
        match self.resolve(&req) {
            Some(i) => {
                assert(call_requires(self.routes@[i as int].handler, (req,)));
                (self.routes[i].handler)(req)
            },
            None => not_found(),
        }
    }
}

/// Determinism of routing: a registered pair resolves to the first entry registered for it,
/// whatever else the table holds.
pub proof fn lemma_resolve_registered(keys: Seq<(Seq<char>, Method)>, path: Seq<char>, method: Method, k: int)
    requires
        0 <= k < keys.len(),
        keys[k] == (path, method),
    ensures
        resolve_index(keys, path, method) matches Some(i) && i <= k && keys[i as int] == (path,
            method) && forall|j: int| 0 <= j < i ==> keys[j] != (path, method),
{
    lemma_first_match(keys, path, method, 0);
}

/// An unregistered pair resolves to the not-found handler, whatever the table holds and in
/// whatever order it was registered.
pub proof fn lemma_resolve_unregistered(keys: Seq<(Seq<char>, Method)>, path: Seq<char>, method: Method)
    requires
        forall|j: int| 0 <= j < keys.len() ==> keys[j] != (path, method),
    ensures
        resolve_index(keys, path, method) == None::<nat>,
{
    lemma_first_match(keys, path, method, 0);
}

/// Registering a further entry never changes where a pair that already resolves goes, and
/// an entry for another pair never changes where any pair goes.
pub proof fn lemma_resolve_stable(
    keys: Seq<(Seq<char>, Method)>,
    extra: (Seq<char>, Method),
    path: Seq<char>,
    method: Method,
)
    requires
        resolve_index(keys, path, method) is Some || extra != (path, method),
    ensures
        resolve_index(keys.push(extra), path, method) == resolve_index(keys, path, method),
{
    let ks = keys.push(extra);
    lemma_first_match(keys, path, method, 0);
    match resolve_index(keys, path, method) {
        Some(i) => {
            lemma_first_match_at(ks, path, method, 0, i);
        },
        None => {
            lemma_first_match_at(ks, path, method, 0, ks.len());
        },
    }
}

} // verus!
