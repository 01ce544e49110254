//! The route table and the matcher: which registered route serves a request,
//! and what its path parameters capture.

use crate::http::HttpMethod;
use crate::query::{
    conditions_equal, conditions_hold, first_of_each, lemma_same_conditions_hold, meets_all,
    parse_entries, query_entries, same_conditions, unique_entries, Entry,
};
use crate::string_map::{distinct_keys, lemma_put, lookup, put, Pair, StringMap};
use crate::text::{chars_of, lemma_split_join, same_text, split, split_text};
use vstd::prelude::*;
use vstd::string::*;

verus! {

/// Whether a piece of a path template names a parameter: it starts with `:`,
/// or stands between `{` and `}`.
pub open spec fn is_param(piece: Seq<char>) -> bool {
    ||| piece.len() >= 1 && piece[0] == ':'
    ||| piece.len() >= 2 && piece[0] == '{' && piece.last() == '}'
}

/// The name of the parameter that a parameter piece binds.
pub open spec fn param_name(piece: Seq<char>) -> Seq<char> {
    if piece.len() >= 1 && piece[0] == ':' {
        piece.skip(1)
    } else {
        piece.subrange(1, piece.len() - 1)
    }
}

/// Whether one piece of a request path fits one piece of a template: a
/// parameter fits anything, a literal fits itself alone.
pub open spec fn piece_matches(template: Seq<char>, actual: Seq<char>) -> bool {
    is_param(template) || template == actual
}

/// Whether the pieces of a request path fit those of a template, one by one.
pub open spec fn pieces_match(template: Seq<Seq<char>>, actual: Seq<Seq<char>>) -> bool {
    &&& template.len() == actual.len()
    &&& forall|i: int| 0 <= i < template.len() ==> piece_matches(#[trigger] template[i], actual[i])
}

/// What the parameter pieces of a template capture from a request path of
/// the same number of pieces. A name that occurs twice keeps its place and
/// takes the later value.
pub open spec fn captured(template: Seq<Seq<char>>, actual: Seq<Seq<char>>) -> Seq<Pair>
    decreases template.len(),
{
    if template.len() == 0 || actual.len() == 0 {
        Seq::empty()
    } else if is_param(template.last()) {
        put(
            captured(template.drop_last(), actual.drop_last()),
            param_name(template.last()),
            actual.last(),
        )
    } else {
        captured(template.drop_last(), actual.drop_last())
    }
}

/// Whether a request path fits a path template: both split at `/` into the
/// same number of pieces, and each piece fits.
pub open spec fn path_matches(template: Seq<char>, path: Seq<char>) -> bool {
    pieces_match(split(template, '/'), split(path, '/'))
}

/// The names that the parameter pieces of a template bind, in order.
pub open spec fn names_of(template: Seq<Seq<char>>) -> Seq<Seq<char>>
    decreases template.len(),
{
    if template.len() == 0 {
        Seq::empty()
    } else if is_param(template.last()) {
        names_of(template.drop_last()).push(param_name(template.last()))
    } else {
        names_of(template.drop_last())
    }
}

/// The path parameters that a template captures from a request path.
pub open spec fn path_params(template: Seq<char>, path: Seq<char>) -> Seq<Pair> {
    captured(split(template, '/'), split(path, '/'))
}

/// The conditions that a condition text of a registration asks for: one for
/// each key, the first that is written.
pub open spec fn conditions_of(text: Option<Seq<char>>) -> Seq<Entry> {
    first_of_each(query_entries(text))
}

/// What a route is registered under: method, path template and conditions.
pub struct RouteKey {
    pub method: HttpMethod,
    pub path: Seq<char>,
    pub conditions: Seq<Entry>,
}

/// A registered route as a plain value.
pub struct RouteView<H> {
    pub method: HttpMethod,
    pub path: Seq<char>,
    pub conditions: Seq<Entry>,
    pub handler: H,
}

impl<H> RouteView<H> {
    /// The number of query conditions that the route asks for.
    pub open spec fn specificity(self) -> nat {
        self.conditions.len()
    }

    /// Whether the route accepts a request: the method is the route's, the
    /// path fits the template, and the query meets every condition.
    pub open spec fn accepts(self, method: HttpMethod, path: Seq<char>, query: Seq<Entry>) -> bool {
        &&& self.method == method
        &&& path_matches(self.path, path)
        &&& conditions_hold(query, self.conditions)
    }

    /// What the route is registered under.
    pub open spec fn key(self) -> RouteKey {
        RouteKey { method: self.method, path: self.path, conditions: self.conditions }
    }

    /// Whether the route is registered under `key`: the same method, the same
    /// template, and conditions that ask the same.
    pub open spec fn has_key(self, key: RouteKey) -> bool {
        &&& self.method == key.method
        &&& self.path == key.path
        &&& same_conditions(self.conditions, key.conditions)
    }

    /// Whether two routes are registered under the same key.
    pub open spec fn same_key(self, other: RouteView<H>) -> bool {
        self.has_key(other.key())
    }
}

/// Whether route `i` is the one that serves the request: it accepts the
/// request, no accepting route has more conditions, and of the accepting
/// routes with as many conditions it was registered first.
pub open spec fn is_best<H>(
    routes: Seq<RouteView<H>>,
    i: int,
    method: HttpMethod,
    path: Seq<char>,
    query: Seq<Entry>,
) -> bool {
    &&& 0 <= i < routes.len()
    &&& routes[i].accepts(method, path, query)
    &&& forall|j: int|
        0 <= j < routes.len() && (#[trigger] routes[j]).accepts(method, path, query) ==> {
            ||| routes[j].specificity() < routes[i].specificity()
            ||| routes[j].specificity() == routes[i].specificity() && i <= j
        }
}

/// Whether no route accepts the request.
pub open spec fn none_accepts<H>(
    routes: Seq<RouteView<H>>,
    method: HttpMethod,
    path: Seq<char>,
    query: Seq<Entry>,
) -> bool {
    forall|j: int| 0 <= j < routes.len() ==> !(#[trigger] routes[j]).accepts(method, path, query)
}

/// The place of the route that serves a request, found by going through the
/// routes in registration order: a route that accepts the request takes over
/// from the one found so far only if it asks for more conditions.
pub open spec fn served_by<H>(
    routes: Seq<RouteView<H>>,
    method: HttpMethod,
    path: Seq<char>,
    query: Seq<Entry>,
) -> Option<int>
    decreases routes.len(),
{
    if routes.len() == 0 {
        None
    } else {
        let before = served_by(routes.drop_last(), method, path, query);
        if !routes.last().accepts(method, path, query) {
            before
        } else {
            match before {
                Some(b) => if routes[b].specificity() >= routes.last().specificity() {
                    before
                } else {
                    Some(routes.len() - 1)
                },
                None => Some(routes.len() - 1),
            }
        }
    }
}

/// Going through the routes in registration order finds the route that
/// serves a request, and finds none only where no route accepts the request.
pub proof fn lemma_served_by<H>(
    routes: Seq<RouteView<H>>,
    method: HttpMethod,
    path: Seq<char>,
    query: Seq<Entry>,
)
    ensures
        match served_by(routes, method, path, query) {
            Some(b) => is_best(routes, b, method, path, query),
            None => none_accepts(routes, method, path, query),
        },
    decreases routes.len(),
{
    if routes.len() > 0 {
        let front = routes.drop_last();
        lemma_served_by(front, method, path, query);
        assert forall|j: int| 0 <= j < front.len() implies #[trigger] routes[j] == front[j] by {}
        match served_by(routes, method, path, query) {
            Some(b) => {
                assert forall|j: int|
                    0 <= j < routes.len() && (#[trigger] routes[j]).accepts(
                        method,
                        path,
                        query,
                    ) implies {
                    ||| routes[j].specificity() < routes[b].specificity()
                    ||| routes[j].specificity() == routes[b].specificity() && b <= j
                } by {}
            },
            None => {
                assert forall|j: int| 0 <= j < routes.len() implies !(#[trigger] routes[j]).accepts(
                    method,
                    path,
                    query,
                ) by {}
            },
        }
    }
}

/// Place of the first route registered under `key`, or `routes.len()`.
pub open spec fn slot<H>(routes: Seq<RouteView<H>>, key: RouteKey) -> int
    decreases routes.len(),
{
    if routes.len() == 0 {
        0
    } else if routes[0].has_key(key) {
        0
    } else {
        1 + slot(routes.drop_first(), key)
    }
}

/// The table after a registration: a route whose key is new goes to the end;
/// one whose key is taken gives its handler to the route that holds the key.
pub open spec fn register<H>(routes: Seq<RouteView<H>>, route: RouteView<H>) -> Seq<RouteView<H>> {
    let i = slot(routes, route.key());
    if 0 <= i < routes.len() {
        routes.update(
            i,
            RouteView {
                method: routes[i].method,
                path: routes[i].path,
                conditions: routes[i].conditions,
                handler: route.handler,
            },
        )
    } else {
        routes.push(route)
    }
}

/// No two routes are registered under the same key.
pub open spec fn unique_keys<H>(routes: Seq<RouteView<H>>) -> bool {
    forall|i: int, j: int| 0 <= i < j < routes.len() ==> !routes[i].same_key(routes[j])
}

/// `slot` returns the first place whose route is registered under `key`.
pub proof fn lemma_slot<H>(routes: Seq<RouteView<H>>, key: RouteKey)
    ensures
        0 <= slot(routes, key) <= routes.len(),
        forall|k: int| 0 <= k < slot(routes, key) ==> !routes[k].has_key(key),
        slot(routes, key) < routes.len() ==> routes[slot(routes, key)].has_key(key),
    decreases routes.len(),
{
    if routes.len() > 0 && !routes[0].has_key(key) {
        let rest = routes.drop_first();
        lemma_slot(rest, key);
        assert forall|k: int| 0 <= k < slot(routes, key) implies !routes[k].has_key(key) by {
            if k > 0 {
                assert(rest[k - 1] == routes[k]);
            }
        }
    }
}

/// A place whose route has the key, with none before it, is the slot.
pub proof fn lemma_slot_is<H>(routes: Seq<RouteView<H>>, key: RouteKey, i: int)
    requires
        0 <= i <= routes.len(),
        forall|k: int| 0 <= k < i ==> !routes[k].has_key(key),
        i < routes.len() ==> routes[i].has_key(key),
    ensures
        slot(routes, key) == i,
{
    lemma_slot(routes, key);
}

/// Registration keeps the keys of a table unique.
pub proof fn lemma_register_unique<H>(routes: Seq<RouteView<H>>, route: RouteView<H>)
    requires
        unique_keys(routes),
    ensures
        unique_keys(register(routes, route)),
{
    lemma_slot(routes, route.key());
    let after = register(routes, route);
    let at = slot(routes, route.key());
    assert forall|i: int, j: int| 0 <= i < j < after.len() implies !after[i].same_key(
        after[j],
    ) by {
        if at < routes.len() {
            assert(!routes[i].same_key(routes[j]));
        }
    }
}

/// A table built from registrations has no key twice.
pub proof fn lemma_built_unique<H>(registrations: Seq<RouteView<H>>)
    ensures
        unique_keys(built(registrations)),
    decreases registrations.len(),
{
    if registrations.len() > 0 {
        lemma_built_unique(registrations.drop_last());
        lemma_register_unique(built(registrations.drop_last()), registrations.last());
    }
}

/// At most one route is the best for a request.
pub proof fn lemma_best_is_unique<H>(
    routes: Seq<RouteView<H>>,
    a: int,
    b: int,
    method: HttpMethod,
    path: Seq<char>,
    query: Seq<Entry>,
)
    requires
        is_best(routes, a, method, path, query),
        is_best(routes, b, method, path, query),
    ensures
        a == b,
{
}

/// After a registration the table holds, at the slot of the route's key, a
/// route with the registered handler that accepts what the registered route
/// accepts; every other route is as it was.
pub proof fn lemma_registered<H>(
    routes: Seq<RouteView<H>>,
    route: RouteView<H>,
    method: HttpMethod,
    path: Seq<char>,
    query: Seq<Entry>,
)
    ensures
        0 <= slot(routes, route.key()) < register(routes, route).len(),
        register(routes, route)[slot(routes, route.key())].handler == route.handler,
        register(routes, route)[slot(routes, route.key())].accepts(method, path, query)
            == route.accepts(method, path, query),
        forall|k: int|
            0 <= k < routes.len() && k != slot(routes, route.key()) ==> register(routes, route)[k]
                == routes[k],
{
    lemma_slot(routes, route.key());
    let at = slot(routes, route.key());
    if at < routes.len() {
        lemma_same_conditions_hold(query, routes[at].conditions, route.conditions);
    }
}

/// A route that accepts a request serves it, unless another route accepts
/// the request too and has more conditions, or as many and an earlier place.
pub proof fn lemma_accepting_route_serves<H>(
    routes: Seq<RouteView<H>>,
    i: int,
    method: HttpMethod,
    path: Seq<char>,
    query: Seq<Entry>,
)
    requires
        0 <= i < routes.len(),
        routes[i].accepts(method, path, query),
        forall|j: int|
            0 <= j < routes.len() && j != i && (#[trigger] routes[j]).accepts(method, path, query)
                ==> {
                ||| routes[j].specificity() < routes[i].specificity()
                ||| routes[j].specificity() == routes[i].specificity() && i < j
            },
    ensures
        is_best(routes, i, method, path, query),
{
}

/// A registered route serves every request that it accepts, with the handler
/// it was registered with, unless another route of the table accepts the
/// request too and has more conditions, or as many and an earlier place.
pub proof fn lemma_registered_route_serves<H>(
    routes: Seq<RouteView<H>>,
    route: RouteView<H>,
    method: HttpMethod,
    path: Seq<char>,
    query: Seq<Entry>,
)
    requires
        route.accepts(method, path, query),
        forall|j: int|
            0 <= j < register(routes, route).len() && j != slot(routes, route.key()) && (
            #[trigger] register(routes, route)[j]).accepts(method, path, query) ==> {
                ||| register(routes, route)[j].specificity() < register(routes, route)[slot(
                    routes,
                    route.key(),
                )].specificity()
                ||| register(routes, route)[j].specificity() == register(routes, route)[slot(
                    routes,
                    route.key(),
                )].specificity() && slot(routes, route.key()) < j
            },
    ensures
        is_best(register(routes, route), slot(routes, route.key()), method, path, query),
        register(routes, route)[slot(routes, route.key())].handler == route.handler,
{
    lemma_registered(routes, route, method, path, query);
    lemma_accepting_route_serves(
        register(routes, route),
        slot(routes, route.key()),
        method,
        path,
        query,
    );
}

/// The route that serves a request asks for at least as many conditions as
/// any route that accepts the request, whatever the order of registration.
pub proof fn lemma_conditions_take_precedence<H>(
    routes: Seq<RouteView<H>>,
    a: int,
    b: int,
    method: HttpMethod,
    path: Seq<char>,
    query: Seq<Entry>,
)
    requires
        is_best(routes, a, method, path, query),
        0 <= b < routes.len(),
        routes[b].accepts(method, path, query),
    ensures
        routes[a].specificity() >= routes[b].specificity(),
{
}

/// What a template captures has no name twice.
pub proof fn lemma_captured_distinct(template: Seq<Seq<char>>, actual: Seq<Seq<char>>)
    ensures
        distinct_keys(captured(template, actual)),
    decreases template.len(),
{
    if template.len() > 0 && actual.len() > 0 {
        lemma_captured_distinct(template.drop_last(), actual.drop_last());
        if is_param(template.last()) {
            lemma_put(
                captured(template.drop_last(), actual.drop_last()),
                param_name(template.last()),
                actual.last(),
            );
        }
    }
}

/// A parameter piece captures the piece of the request path that stands at
/// its place, under its name, unless a later piece binds the same name.
pub proof fn lemma_captured_value(template: Seq<Seq<char>>, actual: Seq<Seq<char>>, i: int)
    requires
        template.len() == actual.len(),
        0 <= i < template.len(),
        is_param(template[i]),
        forall|j: int|
            i < j < template.len() && is_param(#[trigger] template[j]) ==> param_name(template[j])
                != param_name(template[i]),
    ensures
        lookup(captured(template, actual), param_name(template[i])) == Some(actual[i]),
    decreases template.len(),
{
    let front = captured(template.drop_last(), actual.drop_last());
    lemma_captured_distinct(template.drop_last(), actual.drop_last());
    if i == template.len() - 1 {
        lemma_put(front, param_name(template.last()), actual.last());
    } else {
        lemma_captured_value(template.drop_last(), actual.drop_last(), i);
        if is_param(template.last()) {
            lemma_put(front, param_name(template.last()), actual.last());
        }
    }
}

/// Where a path fits a template, each parameter piece of the template gives
/// its name the piece of the path at its place, character for character,
/// unless a later piece binds the same name.
pub proof fn lemma_path_parameter(template: Seq<char>, path: Seq<char>, i: int)
    requires
        path_matches(template, path),
        0 <= i < split(template, '/').len(),
        is_param(split(template, '/')[i]),
        forall|j: int|
            i < j < split(template, '/').len() && is_param(#[trigger] split(template, '/')[j])
                ==> param_name(split(template, '/')[j]) != param_name(split(template, '/')[i]),
    ensures
        lookup(path_params(template, path), param_name(split(template, '/')[i])) == Some(
            split(path, '/')[i],
        ),
{
    lemma_captured_value(split(template, '/'), split(path, '/'), i);
}

/// A template without parameter pieces is fitted by its own text and by no
/// other path.
pub proof fn lemma_literal_template(template: Seq<char>, path: Seq<char>)
    requires
        forall|i: int|
            0 <= i < split(template, '/').len() ==> !is_param(#[trigger] split(template, '/')[i]),
    ensures
        path_matches(template, path) <==> path == template,
{
    let t = split(template, '/');
    let p = split(path, '/');
    lemma_split_join(template, '/');
    lemma_split_join(path, '/');
    if path_matches(template, path) {
        assert(t =~= p);
    }
}

/// One registered route: its key, the pieces of its template, and its handler.
pub struct Route<H> {
    method: HttpMethod,
    path: String,
    pieces: Vec<String>,
    conditions: Vec<(String, Option<String>)>,
    handler: H,
}

impl<H> View for Route<H> {
    type V = RouteView<H>;

    closed spec fn view(&self) -> RouteView<H> {
        RouteView {
            method: self.method,
            path: self.path@,
            conditions: self.conditions.deep_view(),
            handler: self.handler,
        }
    }
}

impl<H> Route<H> {
    /// The pieces are those of the template, and no condition key occurs twice.
    #[verifier::type_invariant]
    closed spec fn well_formed(&self) -> bool {
        &&& self.pieces.deep_view() == split(self.path@, '/')
        &&& distinct_keys(self.conditions.deep_view())
    }

    /// The method that the route is registered for.
    pub fn method(&self) -> (method: HttpMethod)
        ensures
            method == self@.method,
    {
        self.method
    }

    /// The path template.
    pub fn path(&self) -> (path: &str)
        ensures
            path@ == self@.path,
    {
        self.path.as_str()
    }

    /// The query conditions.
    pub fn conditions(&self) -> (conditions: &Vec<(String, Option<String>)>)
        ensures
            conditions.deep_view() == self@.conditions,
    {
        &self.conditions
    }

    /// The handler.
    pub fn handler(&self) -> (handler: &H)
        ensures
            *handler == self@.handler,
    {
        &self.handler
    }
}

/// The name that a template piece binds, if it is a parameter piece.
fn parameter_of(piece: &str) -> (name: Option<String>)
    ensures
        name.deep_view() == if is_param(piece@) {
            Some(param_name(piece@))
        } else {
            None
        },
{
    let chars = chars_of(piece);
    let n = chars.len();
    if n >= 1 && chars[0] == ':' {
        Some(String::from_str(piece.substring_char(1, n)))
    } else if n >= 2 && chars[0] == '{' && chars[n - 1] == '}' {
        Some(String::from_str(piece.substring_char(1, n - 1)))
    } else {
        None
    }
}

/// The names of the path parameters that a path template binds, in the
/// order of its pieces.
pub fn param_names(template: &str) -> (names: Vec<String>)
    ensures
        names.deep_view() == names_of(split(template@, '/')),
{
    let pieces = split_text(template, '/');
    let n = pieces.len();
    let mut names: Vec<String> = Vec::new();
    let mut i: usize = 0;
    while i < n
        invariant
            n == pieces.len(),
            0 <= i <= n,
            pieces.deep_view() == split(template@, '/'),
            names.deep_view() == names_of(pieces.deep_view().take(i as int)),
        decreases n - i,
    {
        proof {
            let next = pieces.deep_view().take(i + 1);
            assert(next.drop_last() =~= pieces.deep_view().take(i as int));
        }
        match parameter_of(pieces[i].as_str()) {
            Some(name) => {
                names.push(name);
            },
            None => {},
        }
        i += 1;
    }
    assert(pieces.deep_view().take(n as int) =~= pieces.deep_view());
    names
}

/// Whether the pieces of a request path fit those of a template.
fn fits(template: &Vec<String>, actual: &Vec<String>) -> (ok: bool)
    ensures
        ok == pieces_match(template.deep_view(), actual.deep_view()),
{
    let n = template.len();
    if actual.len() != n {
        return false;
    }
    let mut i: usize = 0;
    while i < n
        invariant
            n == template.len(),
            n == actual.len(),
            0 <= i <= n,
            forall|k: int|
                0 <= k < i ==> piece_matches(
                    #[trigger] template.deep_view()[k],
                    actual.deep_view()[k],
                ),
        decreases n - i,
    {
        let literal = parameter_of(template[i].as_str()).is_none();
        if literal && !same_text(template[i].as_str(), actual[i].as_str()) {
            assert(!piece_matches(template.deep_view()[i as int], actual.deep_view()[i as int]));
            return false;
        }
        i += 1;
    }
    true
}

/// What the parameter pieces of a template capture from the pieces of a
/// request path.
fn capture(template: &Vec<String>, actual: &Vec<String>) -> (params: StringMap)
    requires
        template.len() == actual.len(),
    ensures
        params.pairs() == captured(template.deep_view(), actual.deep_view()),
{
    let n = template.len();
    let mut params = StringMap::new();
    let mut i: usize = 0;
    while i < n
        invariant
            n == template.len(),
            n == actual.len(),
            0 <= i <= n,
            params.pairs() == captured(
                template.deep_view().take(i as int),
                actual.deep_view().take(i as int),
            ),
        decreases n - i,
    {
        proof {
            let t = template.deep_view().take(i + 1);
            let a = actual.deep_view().take(i + 1);
            assert(t.drop_last() =~= template.deep_view().take(i as int));
            assert(a.drop_last() =~= actual.deep_view().take(i as int));
        }
        match parameter_of(template[i].as_str()) {
            Some(name) => {
                params.insert(name, actual[i].clone());
            },
            None => {},
        }
        i += 1;
    }
    assert(template.deep_view().take(n as int) =~= template.deep_view());
    assert(actual.deep_view().take(n as int) =~= actual.deep_view());
    params
}

/// One registration: what `add_route` is called with.
pub struct Registration<H> {
    pub method: HttpMethod,
    /// The path template.
    pub path: String,
    /// The query conditions, written as a query string.
    pub query: Option<String>,
    pub handler: H,
}

impl<H> View for Registration<H> {
    type V = RouteView<H>;

    /// The route that the registration asks for.
    open spec fn view(&self) -> RouteView<H> {
        RouteView {
            method: self.method,
            path: self.path@,
            conditions: conditions_of(self.query.deep_view()),
            handler: self.handler,
        }
    }
}

/// The table that a list of registrations gives, applied in order to an
/// empty table.
pub open spec fn built<H>(registrations: Seq<RouteView<H>>) -> Seq<RouteView<H>>
    decreases registrations.len(),
{
    if registrations.len() == 0 {
        Seq::empty()
    } else {
        register(built(registrations.drop_last()), registrations.last())
    }
}

/// The plain text of an optional text.
pub open spec fn text_of(text: Option<&str>) -> Option<Seq<char>> {
    match text {
        Some(t) => Some(t@),
        None => None,
    }
}

/// The route that serves a request, with what its template captured.
pub struct RouteMatch<'a, H> {
    /// Place of the route in registration order.
    pub index: usize,
    /// The handler of the route.
    pub handler: &'a H,
    /// The path parameters, by name.
    pub params: StringMap,
}

/// The route table: the registered routes in registration order, no two
/// under the same method, template and conditions.
pub struct Maden<H> {
    routes: Vec<Route<H>>,
}

impl<H> Default for Maden<H> {
    /// A table without routes.
    fn default() -> (table: Self)
        ensures
            table.routes() == Seq::<RouteView<H>>::empty(),
            unique_keys(table.routes()),
    {
        Maden::new()
    }
}

impl<H> Maden<H> {
    /// The registered routes as plain values, in registration order.
    pub closed spec fn routes(&self) -> Seq<RouteView<H>> {
        Seq::new(self.routes.len() as nat, |i: int| self.routes[i]@)
    }

    /// No two routes share a key.
    #[verifier::type_invariant]
    closed spec fn well_formed(&self) -> bool {
        unique_keys(self.routes())
    }

    /// A table without routes.
    pub fn new() -> (table: Self)
        ensures
            table.routes() == Seq::<RouteView<H>>::empty(),
            unique_keys(table.routes()),
    {
        Maden { routes: Vec::new() }
    }

    /// The table that the registrations give, applied in order.
    pub fn build(registrations: Vec<Registration<H>>) -> (table: Self)
        ensures
            table.routes() == built(registrations@.map_values(|r: Registration<H>| r@)),
            unique_keys(table.routes()),
    {
        let ghost wanted = registrations@.map_values(|r: Registration<H>| r@);
        let mut table = Maden::new();
        for registration in it: registrations
            invariant
                wanted == it.seq().map_values(|r: Registration<H>| r@),
                table.routes() == built(wanted.take(it.index() as int)),
        {
            proof {
                let next = wanted.take(it.index() + 1);
                assert(next.drop_last() =~= wanted.take(it.index() as int));
            }
            table.add_route(
                registration.method,
                registration.path.as_str(),
                registration.query,
                registration.handler,
            );
        }
        proof {
            assert(wanted.take(wanted.len() as int) =~= wanted);
            lemma_built_unique(wanted);
        }
        table
    }

    /// Number of registered routes. Of every table it holds that no two of
    /// its routes stand under the same method, template and conditions.
    pub fn len(&self) -> (n: usize)
        ensures
            n == self.routes().len(),
            unique_keys(self.routes()),
    {
        proof {
            use_type_invariant(self);
        }
        self.routes.len()
    }

    /// The route at place `index` of the registration order.
    pub fn route(&self, index: usize) -> (route: Option<&Route<H>>)
        ensures
            index < self.routes().len() ==> route is Some && route->0@ == self.routes()[
                index as int
            ],
            index >= self.routes().len() ==> route is None,
    {
        if index < self.routes.len() {
            Some(&self.routes[index])
        } else {
            None
        }
    }

    /// Place of the route that holds the given key, or the number of routes.
    fn slot_of(
        &self,
        method: HttpMethod,
        path: &str,
        conditions: &Vec<(String, Option<String>)>,
    ) -> (at: usize)
        ensures
            at == slot(
                self.routes(),
                RouteKey { method, path: path@, conditions: conditions.deep_view() },
            ),
            at <= self.routes().len(),
    {
        let ghost key = RouteKey { method, path: path@, conditions: conditions.deep_view() };
        let n = self.routes.len();
        let mut i: usize = 0;
        while i < n
            invariant
                n == self.routes.len(),
                0 <= i <= n,
                key == (RouteKey { method, path: path@, conditions: conditions.deep_view() }),
                forall|k: int| 0 <= k < i ==> !self.routes()[k].has_key(key),
            decreases n - i,
        {
            let route = &self.routes[i];
            if route.method == method && same_text(route.path.as_str(), path) && conditions_equal(
                &route.conditions,
                conditions,
            ) {
                proof {
                    lemma_slot_is(self.routes(), key, i as int);
                }
                return i;
            }
            i += 1;
        }
        proof {
            lemma_slot_is(self.routes(), key, n as int);
        }
        n
    }

    /// Registers `handler` for requests of `method` whose path fits the
    /// template `path` and whose query meets the conditions written in
    /// `query` (`key=value` asks for that value, a bare `key` for the key's
    /// presence; several are joined by `&`). A route registered before under
    /// the same method, template and conditions keeps its place and takes the
    /// new handler.
    pub fn add_route(&mut self, method: HttpMethod, path: &str, query: Option<String>, handler: H)
        ensures
            final(self).routes() == register(
                old(self).routes(),
                RouteView {
                    method,
                    path: path@,
                    conditions: conditions_of(query.deep_view()),
                    handler,
                },
            ),
            unique_keys(old(self).routes()),
            unique_keys(final(self).routes()),
    {
        let conditions = match &query {
            Some(text) => unique_entries(&parse_entries(text.as_str())),
            None => {
                let none: Vec<(String, Option<String>)> = Vec::new();
                assert(none.deep_view() =~= Seq::<Entry>::empty());
                none
            },
        };
        let ghost wanted = RouteView {
            method,
            path: path@,
            conditions: conditions_of(query.deep_view()),
            handler,
        };
        let ghost before = self.routes();
        proof {
            use_type_invariant(&*self);
            lemma_register_unique(before, wanted);
            lemma_slot(before, wanted.key());
        }
        let at = self.slot_of(method, path, &conditions);
        let mut routes: Vec<Route<H>> = Vec::new();
        core::mem::swap(&mut self.routes, &mut routes);
        if at < routes.len() {
            let old_route = routes.remove(at);
            proof {
                use_type_invariant(&old_route);
            }
            let route = Route {
                method: old_route.method,
                path: old_route.path,
                pieces: old_route.pieces,
                conditions: old_route.conditions,
                handler,
            };
            routes.insert(at, route);
        } else {
            let pieces = split_text(path, '/');
            let route = Route {
                method,
                path: String::from_str(path),
                pieces,
                conditions,
                handler,
            };
            routes.push(route);
        }
        assert(Seq::new(routes.len() as nat, |i: int| routes[i]@) =~= register(before, wanted));
        core::mem::swap(&mut self.routes, &mut routes);
    }

    /// The route that serves a request: of the routes that accept it, the one
    /// with the most query conditions, and of several such the one registered
    /// first. Its path parameters are what its template captures from `path`.
    pub fn find(&self, method: HttpMethod, path: &str, query: Option<&str>) -> (found: Option<
        RouteMatch<'_, H>,
    >)
        ensures
            match found {
                Some(m) => {
                    &&& is_best(
                        self.routes(),
                        m.index as int,
                        method,
                        path@,
                        query_entries(text_of(query)),
                    )
                    &&& *m.handler == self.routes()[m.index as int].handler
                    &&& m.params.pairs() == path_params(self.routes()[m.index as int].path, path@)
                },
                None => none_accepts(self.routes(), method, path@, query_entries(text_of(query))),
            },
    {
        let entries = match query {
            Some(text) => parse_entries(text),
            None => {
                let none: Vec<(String, Option<String>)> = Vec::new();
                none
            },
        };
        self.find_entries(method, path, &entries)
    }

    /// The route that serves a request whose query string is already read
    /// into its entries.
    pub fn find_entries(
        &self,
        method: HttpMethod,
        path: &str,
        entries: &Vec<(String, Option<String>)>,
    ) -> (found: Option<RouteMatch<'_, H>>)
        ensures
            match found {
                Some(m) => {
                    &&& is_best(self.routes(), m.index as int, method, path@, entries.deep_view())
                    &&& *m.handler == self.routes()[m.index as int].handler
                    &&& m.params.pairs() == path_params(self.routes()[m.index as int].path, path@)
                },
                None => none_accepts(self.routes(), method, path@, entries.deep_view()),
            },
    {
        let ghost asked = entries.deep_view();
        let pieces = split_text(path, '/');
        let n = self.routes.len();
        let mut best: Option<usize> = None;
        let mut i: usize = 0;
        while i < n
            invariant
                n == self.routes.len(),
                0 <= i <= n,
                entries.deep_view() == asked,
                pieces.deep_view() == split(path@, '/'),
                match best {
                    Some(b) => b < i && served_by(
                        self.routes().take(i as int),
                        method,
                        path@,
                        asked,
                    ) == Some(b as int),
                    None => served_by(self.routes().take(i as int), method, path@, asked) is None,
                },
            decreases n - i,
        {
            let route = &self.routes[i];
            proof {
                use_type_invariant(route);
                let next = self.routes().take(i + 1);
                assert(next.drop_last() =~= self.routes().take(i as int));
            }
            if route.method == method && fits(&route.pieces, &pieces) && meets_all(
                entries,
                &route.conditions,
            ) {
                match best {
                    Some(b) => {
                        if route.conditions.len() > self.routes[b].conditions.len() {
                            best = Some(i);
                        }
                    },
                    None => {
                        best = Some(i);
                    },
                }
            }
            i += 1;
        }
        proof {
            assert(self.routes().take(n as int) =~= self.routes());
            lemma_served_by(self.routes(), method, path@, asked);
        }
        match best {
            Some(b) => {
                let route = &self.routes[b];
                proof {
                    use_type_invariant(route);
                }
                let params = capture(&route.pieces, &pieces);
                Some(RouteMatch { index: b, handler: &route.handler, params })
            },
            None => None,
        }
    }
}

} // verus!
