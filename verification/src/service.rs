//! The dispatcher: from the parts of one parsed request to either the handler
//! to invoke, with the request to hand to it, or the response to send at once.

use crate::error::{error_body, MadenError};
use crate::http::{method_named, with_content, HttpMethod, IntoResponse, Request, Response};
use crate::query::{parse_entries, query_entries, valued, valued_entries, Entry};
use crate::route::{
    is_best, lemma_best_is_unique, none_accepts, path_params, text_of, Maden, RouteView,
};
use crate::string_map::{Pair, StringMap};
use vstd::prelude::*;
use vstd::string::*;

verus! {

/// What is to be done with one request.
pub enum Dispatch<'a, H> {
    /// Invoke the handler of the route at place `index` with `request`.
    Handle { index: usize, handler: &'a H, request: Request },
    /// Send this response; no handler is invoked.
    Respond(Response),
}

/// Whether a response is the one sent where no route serves a request: status
/// 404 with the JSON error body of the message `Route not found.`.
pub open spec fn is_not_found(response: Response) -> bool {
    &&& response.status_code == 404
    &&& response.body@ == error_body(404, "Route not found."@, None)
    &&& response.headers.pairs() == with_content(
        Seq::<Pair>::empty(),
        "application/json"@,
        response.body@.len(),
    )
}

/// Whether some route of the table serves a request of the method named
/// `method`.
pub open spec fn is_served<H>(
    routes: Seq<RouteView<H>>,
    method: Seq<char>,
    path: Seq<char>,
    query: Option<Seq<char>>,
) -> bool {
    method_named(method) matches Some(m) && !none_accepts(routes, m, path, query_entries(query))
}

/// The response for a request that no route serves.
pub fn not_found() -> (response: Response)
    ensures
        is_not_found(response),
{
    MadenError::not_found("Route not found.").into_response()
}

/// Whether `outcome` is what is done with a request: a request whose method
/// name is unknown, or that no route accepts, is answered with the not-found
/// response; any other goes to the handler of the route that serves it, as a
/// request that holds the given parts, the path parameters that the route's
/// template captured, and the query parameters read from the query string.
pub open spec fn is_outcome<H>(
    routes: Seq<RouteView<H>>,
    method: Seq<char>,
    path: Seq<char>,
    query: Option<Seq<char>>,
    headers: StringMap,
    body: Vec<u8>,
    outcome: Dispatch<'_, H>,
) -> bool {
    match outcome {
        Dispatch::Respond(response) => {
            &&& !is_served(routes, method, path, query)
            &&& is_not_found(response)
        },
        Dispatch::Handle { index, handler, request } => {
            &&& method_named(method) == Some(request.method)
            &&& is_best(routes, index as int, request.method, path, query_entries(query))
            &&& *handler == routes[index as int].handler
            &&& request.path@ == path
            &&& request.headers == headers
            &&& request.path_params.pairs() == path_params(routes[index as int].path, path)
            &&& request.query_params.pairs() == valued(query_entries(query))
            &&& request.body == body
        },
    }
}

/// What is done with a request depends on the table and on the parts of the
/// request alone: two outcomes of the same request agree on whether a handler
/// is invoked, on which one, and on every part of what it is handed or of
/// what is sent.
pub proof fn lemma_outcome_is_determined<H>(
    routes: Seq<RouteView<H>>,
    method: Seq<char>,
    path: Seq<char>,
    query: Option<Seq<char>>,
    headers: StringMap,
    body: Vec<u8>,
    a: Dispatch<'_, H>,
    b: Dispatch<'_, H>,
)
    requires
        is_outcome(routes, method, path, query, headers, body, a),
        is_outcome(routes, method, path, query, headers, body, b),
    ensures
        match (a, b) {
            (Dispatch::Respond(x), Dispatch::Respond(y)) => {
                &&& x.status_code == y.status_code
                &&& x.headers.pairs() == y.headers.pairs()
                &&& x.body@ == y.body@
            },
            (
                Dispatch::Handle { index: i, handler: g, request: x },
                Dispatch::Handle { index: j, handler: h, request: y },
            ) => {
                &&& i == j
                &&& *g == *h
                &&& x.method == y.method
                &&& x.path@ == y.path@
                &&& x.headers == y.headers
                &&& x.path_params.pairs() == y.path_params.pairs()
                &&& x.query_params.pairs() == y.query_params.pairs()
                &&& x.body == y.body
            },
            _ => false,
        },
{
    match (a, b) {
        (
            Dispatch::Handle { index: i, handler: g, request: x },
            Dispatch::Handle { index: j, handler: h, request: y },
        ) => {
            lemma_best_is_unique(
                routes,
                i as int,
                j as int,
                x.method,
                path,
                query_entries(query),
            );
        },
        _ => {},
    }
}

/// Decides what is done with one request. A request whose method name is
/// unknown, or that no route accepts, is answered with the not-found
/// response. Any other goes to the handler of the route that serves it.
pub fn dispatch<'a, H>(
    table: &'a Maden<H>,
    method: &str,
    path: &str,
    query: Option<&str>,
    headers: StringMap,
    body: Vec<u8>,
) -> (outcome: Dispatch<'a, H>)
    ensures
        is_outcome(table.routes(), method@, path@, text_of(query), headers, body, outcome),
{
    let known = match HttpMethod::from_name(method) {
        Some(known) => known,
        None => {
            return Dispatch::Respond(not_found());
        },
    };
    let entries = match query {
        Some(text) => parse_entries(text),
        None => {
            let none: Vec<(String, Option<String>)> = Vec::new();
            none
        },
    };
    match table.find_entries(known, path, &entries) {
        Some(found) => {
            let request = Request::new(
                known,
                String::from_str(path),
                headers,
                found.params,
                valued_entries(&entries),
                body,
            );
            Dispatch::Handle { index: found.index, handler: found.handler, request }
        },
        None => Dispatch::Respond(not_found()),
    }
}

} // verus!
