//! The router: the path-to-handler table and the per-connection dispatch.
//!
//! The table maps exact, case-sensitive path strings to response bodies.
//! A handler is a zero-argument, side-effect-free producer of one response
//! body, so registering one amounts to storing the body it produces; what
//! a request to its path is answered with is decided entirely by that
//! stored value.  Keys are unique: registering a duplicate path fails and
//! never overwrites.
//! Dispatch takes one request line, extracts its second whitespace-delimited
//! token as the routing key, and produces either the matched body's
//! `200 OK` reply or the `404 NOT FOUND` reply built around the not-found
//! content.  The listening, accepting, reading and writing around this
//! logic is the embedding program's business; it hands the library plain
//! strings and writes back what the library returns.

use crate::error::HttpError;
use crate::parse::{is_token, lemma_second_token_of_request_line, second_token};
use crate::response::{
    not_found_chars, not_found_response, ok_chars, BodyView, IntoResponse, ResponseBody,
};
use vstd::prelude::*;

verus! {

/// The route table of `routes`, as a map from path to body model.
/// Later entries would win, but well-formedness keeps keys unique.
pub open spec fn route_map(routes: Seq<(String, ResponseBody)>) -> Map<Seq<char>, BodyView>
    decreases routes.len(),
{
    if routes.len() == 0 {
        Map::empty()
    } else {
        route_map(routes.drop_last()).insert(routes.last().0@, routes.last().1@)
    }
}

/// Over entries with pairwise distinct paths, a key is in the route map
/// exactly when some entry carries it, and the map then holds that
/// entry's body.
proof fn lemma_route_map_entries(routes: Seq<(String, ResponseBody)>, p: Seq<char>)
    requires
        forall|i: int, j: int| 0 <= i < j < routes.len() ==> routes[i].0@ != routes[j].0@,
    ensures
        route_map(routes).contains_key(p) <==> exists|i: int|
            0 <= i < routes.len() && routes[i].0@ == p,
        forall|i: int|
            0 <= i < routes.len() && routes[i].0@ == p ==> route_map(routes)[p] == routes[i].1@,
    decreases routes.len(),
{
    if routes.len() > 0 {
        let n = routes.len() as int;
        let prefix = routes.drop_last();
        assert(forall|i: int| 0 <= i < n - 1 ==> #[trigger] prefix[i] == routes[i]);
        lemma_route_map_entries(prefix, p);
        if routes.last().0@ == p {
            assert(routes[n - 1].0@ == p);
            assert(route_map(routes)[p] == routes.last().1@);
            assert(forall|i: int| 0 <= i < n - 1 ==> routes[i].0@ != p);
        } else {
            assert(route_map(routes).contains_key(p) == route_map(prefix).contains_key(p));
            if route_map(prefix).contains_key(p) {
                let i0 = choose|i: int| 0 <= i < prefix.len() && prefix[i].0@ == p;
                assert(routes[i0].0@ == p);
            }
            if exists|i: int| 0 <= i < routes.len() && routes[i].0@ == p {
                let i0 = choose|i: int| 0 <= i < routes.len() && routes[i].0@ == p;
                assert(i0 < n - 1);
                assert(prefix[i0].0@ == p);
            }
            assert forall|i: int| 0 <= i < routes.len() && routes[i].0@ == p implies route_map(
                routes,
            )[p] == routes[i].1@ by {
                assert(i < n - 1);
                assert(prefix[i] == routes[i]);
            }
        }
    }
}

/// One-process HTTP router: a bind address and the route table.
pub struct Router {
    ip_addr: String,
    routes: Vec<(String, ResponseBody)>,
}

/// What dispatching one request line against the table `t` yields:
/// the error for a line with fewer than two tokens, the matched body's
/// `200 OK` reply for a registered path, and the `404 NOT FOUND` reply
/// around `nf` for everything else.
pub open spec fn spec_handle(
    t: Map<Seq<char>, BodyView>,
    line: Seq<char>,
    nf: Seq<char>,
) -> Result<Seq<char>, HttpError> {
    match second_token(line) {
        Some(p) => if t.contains_key(p) {
            Ok(ok_chars(t[p]))
        } else {
            Ok(not_found_chars(nf))
        },
        None => Err(HttpError::MalformedRequestLine),
    }
}

/// The `Ok` value's characters, for comparing responses to their model.
pub open spec fn result_chars(r: Result<String, HttpError>) -> Result<Seq<char>, HttpError> {
    match r {
        Ok(s) => Ok(s@),
        Err(e) => Err(e),
    }
}

impl Router {
    /// The bind address, as its characters.
    pub closed spec fn addr(&self) -> Seq<char> {
        self.ip_addr@
    }

    /// The route table, as a map from path to body model.
    pub closed spec fn table(&self) -> Map<Seq<char>, BodyView> {
        route_map(self.routes@)
    }

    /// Well-formedness: no two entries share a path.
    pub closed spec fn wf(&self) -> bool {
        forall|i: int, j: int|
            0 <= i < j < self.routes@.len() ==> self.routes@[i].0@ != self.routes@[j].0@
    }

    /// A router for the given bind address, with no routes yet.
    pub fn new(ip_address: String) -> (r: Router)
        ensures
            r.wf(),
            r.addr() == ip_address@,
            r.table() == Map::<Seq<char>, BodyView>::empty(),
    {
        Router { ip_addr: ip_address, routes: Vec::new() }
    }

    /// The bind address, for the embedding program to listen on.
    pub fn address(&self) -> (a: &str)
        ensures
            a@ == self.addr(),
    {
        self.ip_addr.as_str()
    }

    /// The registered paths in registration order, as their characters.
    pub closed spec fn path_list(&self) -> Seq<Seq<char>> {
        Seq::new(self.routes@.len(), |i: int| self.routes@[i].0@)
    }

    /// The registered paths, in registration order.
    pub fn paths(&self) -> (ps: Vec<String>)
        requires
            self.wf(),
        ensures
            ps@.len() == self.path_list().len(),
            forall|i: int| 0 <= i < ps@.len() ==> ps@[i]@ == self.path_list()[i],
            forall|i: int| 0 <= i < ps@.len() ==> self.table().contains_key(ps@[i]@),
    {
        let mut ps: Vec<String> = Vec::new();
        let mut i: usize = 0;
        while i < self.routes.len()
            invariant
                self.wf(),
                i <= self.routes@.len(),
                ps@.len() == i,
                forall|j: int| 0 <= j < i ==> ps@[j]@ == self.routes@[j].0@,
            decreases self.routes@.len() - i,
        {
            ps.push(self.routes[i].0.clone());
            i += 1;
        }
        proof {
            assert forall|k: int| 0 <= k < ps@.len() implies self.table().contains_key(
                ps@[k]@,
            ) by {
                lemma_route_map_entries(self.routes@, ps@[k]@);
            }
        }
        ps
    }

    /// The index of the entry for `path`, if the table has one.
    fn find_route(&self, path: &String) -> (r: Option<usize>)
        requires
            self.wf(),
        ensures
            match r {
                Some(i) => i < self.routes@.len() && self.routes@[i as int].0@ == path@
                    && self.table().contains_key(path@) && self.table()[path@]
                    == self.routes@[i as int].1@,
                None => !self.table().contains_key(path@),
            },
    {
        let n = self.routes.len();
        let mut i: usize = 0;
        while i < n
            invariant
                self.wf(),
                n == self.routes@.len(),
                i <= n,
                forall|j: int| 0 <= j < i ==> self.routes@[j].0@ != path@,
            decreases n - i,
        {
            if self.routes[i].0 == *path {
                proof {
                    lemma_route_map_entries(self.routes@, path@);
                }
                return Some(i);
            }
            i += 1;
        }
        proof {
            lemma_route_map_entries(self.routes@, path@);
        }
        None
    }

    /// Whether a handler is registered for exactly `route`.
    pub fn contains_route(&self, route: &str) -> (b: bool)
        requires
            self.wf(),
        ensures
            b == self.table().contains_key(route@),
    {
        let key = String::from_str(route);
        self.find_route(&key).is_some()
    }

    /// Registers `handler` under the exact path `route`.
    ///
    /// Any string is accepted as a key; nothing of its syntax is checked.
    /// Fails with `AlreadyExists`, leaving the table unchanged, exactly
    /// when `route` is already a key: the first handler stays
    /// authoritative and the new one is never installed.
    pub fn new_route<R: IntoResponse>(&mut self, route: &str, handler: R) -> (r: Result<
        (),
        HttpError,
    >)
        requires
            old(self).wf(),
        ensures
            final(self).wf(),
            final(self).addr() == old(self).addr(),
            match r {
                Ok(()) => !old(self).table().contains_key(route@) && final(self).table()
                    == old(self).table().insert(route@, handler.spec_body()),
                Err(e) => e == HttpError::AlreadyExists && old(self).table().contains_key(route@)
                    && final(self).table() == old(self).table(),
            },
    {
        let key = String::from_str(route);
        if self.find_route(&key).is_some() {
            return Err(HttpError::AlreadyExists);
        }
        let ghost before = self.routes@;
        let body = handler.into_body();
        self.routes.push((key, body));
        proof {
            assert(self.routes@.drop_last() =~= before);
            lemma_route_map_entries(before, route@);
            assert(forall|i: int| 0 <= i < before.len() ==> before[i].0@ != route@);
        }
        Ok(())
    }

    /// The serialized `200 OK` reply of the handler registered for `path`,
    /// or `None` exactly when no handler is.
    pub fn response_for_path(&self, path: &String) -> (r: Option<String>)
        requires
            self.wf(),
        ensures
            match r {
                Some(s) => self.table().contains_key(path@) && s@ == ok_chars(
                    self.table()[path@],
                ),
                None => !self.table().contains_key(path@),
            },
    {
        match self.find_route(path) {
            Some(i) => Some(self.routes[i].1.serialize()),
            None => None,
        }
    }

    /// The whole per-connection computation: parses the request line,
    /// routes its path, and serializes the reply, with `not_found_body`
    /// as the content of the `404 NOT FOUND` reply.  Exactly the lines
    /// with fewer than two whitespace-delimited tokens are rejected.
    pub fn handle_request(&self, request_line: &str, not_found_body: &str) -> (r: Result<
        String,
        HttpError,
    >)
        requires
            self.wf(),
        ensures
            result_chars(r) == spec_handle(self.table(), request_line@, not_found_body@),
    {
        match crate::parse::parse_request_path(request_line) {
            Some(path) => match self.response_for_path(&path) {
                Some(s) => Ok(s),
                None => Ok(not_found_response(not_found_body)),
            },
            None => Err(HttpError::MalformedRequestLine),
        }
    }
}

/// The first protocol step: a connection must yield a request line before
/// it closes.  `None` — the stream ended first — is exactly the
/// `PrematureEof` error; a present line passes through unchanged.
pub fn require_request_line(line: Option<String>) -> (r: Result<String, HttpError>)
    ensures
        match line {
            Some(l) => r == Ok::<String, HttpError>(l),
            None => r == Err::<String, HttpError>(HttpError::PrematureEof),
        },
{
    match line {
        Some(l) => Ok(l),
        None => Err(HttpError::PrematureEof),
    }
}

/// A registered path is always served its handler's `200 OK` reply: for
/// any table `t` holding `path`, a request line `<method> <path> <version>`
/// dispatches to exactly the serialized reply of the registered body —
/// status `200 OK`, `Content-Length` equal to the body's byte length, and
/// the content type of the body's variant, as `ok_chars` spells out.
pub proof fn lemma_registered_path_served(
    t: Map<Seq<char>, BodyView>,
    method: Seq<char>,
    path: Seq<char>,
    version: Seq<char>,
    nf: Seq<char>,
)
    requires
        t.contains_key(path),
        is_token(method),
        is_token(path),
        version.len() == 0 || !crate::parse::is_ws(version[0]),
    ensures
        spec_handle(t, method + seq![' '] + path + seq![' '] + version, nf) == Ok::<
            Seq<char>,
            HttpError,
        >(ok_chars(t[path])),
{
    lemma_second_token_of_request_line(method, path, version);
}

/// An unregistered path is always served the not-found reply: for any
/// table `t` without `path`, the same request line dispatches to exactly
/// `not_found_chars(nf)` — status `404 NOT FOUND`, `Content-Length` equal
/// to the byte length of `nf`, no `Content-Type` header, and `nf` itself
/// as the body.
pub proof fn lemma_unregistered_path_not_found(
    t: Map<Seq<char>, BodyView>,
    method: Seq<char>,
    path: Seq<char>,
    version: Seq<char>,
    nf: Seq<char>,
)
    requires
        !t.contains_key(path),
        is_token(method),
        is_token(path),
        version.len() == 0 || !crate::parse::is_ws(version[0]),
    ensures
        spec_handle(t, method + seq![' '] + path + seq![' '] + version, nf) == Ok::<
            Seq<char>,
            HttpError,
        >(not_found_chars(nf)),
{
    lemma_second_token_of_request_line(method, path, version);
}

/// Dispatch is deterministic, so serving the same request twice over an
/// unchanged table yields byte-identical responses: any two results that
/// `handle_request` may return for the same inputs agree.
pub proof fn lemma_repeated_request_identical(
    t: Map<Seq<char>, BodyView>,
    line: Seq<char>,
    nf: Seq<char>,
    r1: Result<String, HttpError>,
    r2: Result<String, HttpError>,
)
    requires
        result_chars(r1) == spec_handle(t, line, nf),
        result_chars(r2) == spec_handle(t, line, nf),
    ensures
        result_chars(r1) == result_chars(r2),
{
}

} // verus!

