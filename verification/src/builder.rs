//! A router builder that records route metadata alongside real Axum routing.
//!
//! [`ApiRouter`] holds an [`axum::Router`] and a [`RouteCollection`]; each route is
//! registered with the router when it is started and recorded when it is finished.

use vstd::prelude::*;

use axum::routing::MethodRouter;
use axum::Router;

use crate::generator::opt_view;
use crate::names::{camel, handler_name, handler_name_from_type_name, snake_to_camel, strip_module_paths, stripped};
use crate::route_paths::{
    fits, method_copy, pairs_view, records_fit, route_fits, route_path_ok, valid_route_path,
};
use crate::route_table::RouteTable;
use crate::types::{extract_path_params, path_param_names, HttpMethod, RouteCollection, RouteDefinition};

verus! {

/// Builder that constructs both an [`axum::Router`] and a [`RouteCollection`].
///
/// Its router is kept in a [`RouteTable`] with the record of the (path, method)
/// pairs registered on it, and a copy of that record that code can read, so that
/// a route or merge that Axum would refuse can be refused before it reaches the
/// router.
#[verifier::reject_recursive_types(S)]
pub struct ApiRouter<S> where S: Clone + Send + Sync + 'static {
    table: RouteTable<S>,
    registered: Vec<(String, HttpMethod)>,
    routes: RouteCollection,
    current_group: Option<String>,
}

impl<S> ApiRouter<S> where S: Clone + Send + Sync + 'static {
    /// The readable record is the table's.
    #[verifier::type_invariant]
    spec fn record_matches(self) -> bool {
        pairs_view(self.registered@) == self.table.pairs()
    }

    /// The routes recorded so far, in order.
    pub closed spec fn recorded(&self) -> Seq<RouteDefinition> {
        self.routes@
    }

    /// The group given to routes started from now on.
    pub closed spec fn group_now(&self) -> Option<Seq<char>> {
        opt_view(self.current_group)
    }

    /// The (path, method) pairs registered on the router so far, in order.
    pub closed spec fn registered(&self) -> Seq<(Seq<char>, HttpMethod)> {
        pairs_view(self.registered@)
    }

    /// Whether [`ApiRouter::route`] takes `method` at `path`: Axum accepts the
    /// path, the pair fits those registered, and a route id is left.
    pub open spec fn takes(&self, path: Seq<char>, method: HttpMethod) -> bool {
        &&& route_path_ok(path)
        &&& route_fits(self.registered(), path, method)
        &&& self.registered().len() < u32::MAX
    }

    /// Whether [`ApiRouter::merge`] takes `other`: no pair or path of one clashes
    /// with the other's, and the route ids suffice.
    pub open spec fn joins(&self, other: &ApiRouter<S>) -> bool {
        &&& records_fit(self.registered(), other.registered())
        &&& self.registered().len() + other.registered().len() <= u32::MAX
    }

    /// Create a new empty builder.
    pub fn new() -> (res: Self)
        ensures
            res.recorded() == Seq::<RouteDefinition>::empty(),
            res.registered() == Seq::<(Seq<char>, HttpMethod)>::empty(),
            res.group_now() is None,
    {
        let registered: Vec<(String, HttpMethod)> = Vec::new();
        assert(pairs_view(registered@) =~= Seq::<(Seq<char>, HttpMethod)>::empty());
        let res = ApiRouter {
            table: RouteTable::new(),
            registered,
            routes: RouteCollection::new(),
            current_group: None,
        };
        res
    }

    /// Set the group for all subsequent routes.
    pub fn group(self, name: &str) -> (res: Self)
        ensures
            res.recorded() == self.recorded(),
            res.registered() == self.registered(),
            res.group_now() == Some(name@),
    {
        proof {
            use_type_invariant(&self);
        }
        let mut s = self;
        s.current_group = Some(String::from_str(name));
        s
    }

    /// Clear the current group.
    pub fn no_group(self) -> (res: Self)
        ensures
            res.recorded() == self.recorded(),
            res.registered() == self.registered(),
            res.group_now() is None,
    {
        proof {
            use_type_invariant(&self);
        }
        let mut s = self;
        s.current_group = None;
        s
    }

    /// Whether [`ApiRouter::route`] takes `method` at `path` (see
    /// [`ApiRouter::takes`]).
    pub fn can_route(&self, path: &str, method: &HttpMethod) -> (res: bool)
        ensures
            res == self.takes(path@, *method),
    {
        valid_route_path(path) && fits(&self.registered, path, method) && (self.registered.len() as u64)
            < (u32::MAX as u64)
    }

    /// Whether [`ApiRouter::merge`] takes `other` (see [`ApiRouter::joins`]).
    pub fn can_merge(&self, other: &ApiRouter<S>) -> (res: bool)
        ensures
            res == self.joins(other),
    {
        let ghost a = self.registered();
        let ghost b = other.registered();
        let n = other.registered.len();
        let mut j: usize = 0;
        while j < n
            invariant
                n == b.len(),
                a == self.registered(),
                b == other.registered(),
                j <= n,
                forall|k: int| 0 <= k < j ==> route_fits(a, #[trigger] b[k].0, b[k].1),
            decreases n - j,
        {
            let (q, m) = &other.registered[j];
            assert(b[j as int] == (q@, *m));
            if !fits(&self.registered, q.as_str(), m) {
                assert(!route_fits(a, b[j as int].0, b[j as int].1));
                return false;
            }
            j = j + 1;
        }
        let len = self.registered.len() as u64;
        len <= (u32::MAX as u64) && (n as u64) <= (u32::MAX as u64) - len
    }

    /// Merge another `ApiRouter`'s router and routes into this one; the current
    /// group stays this builder's.
    pub fn merge(self, other: ApiRouter<S>) -> (res: Self)
        requires
            self.joins(&other),
        ensures
            res.recorded() == self.recorded() + other.recorded(),
            res.registered() == self.registered() + other.registered(),
            res.group_now() == self.group_now(),
    {
        proof {
            use_type_invariant(&self);
            use_type_invariant(&other);
        }
        let ApiRouter { table, registered, routes, current_group } = self;
        let ApiRouter {
            table: other_table,
            registered: other_registered,
            routes: other_routes,
            current_group: _,
        } = other;
        let table = table.merge(other_table);
        let mut registered = registered;
        let mut other_registered = other_registered;
        let ghost before = registered@;
        let ghost added = other_registered@;
        registered.append(&mut other_registered);
        assert(pairs_view(registered@) =~= pairs_view(before) + pairs_view(added));
        let mut routes = routes;
        routes.extend(other_routes);
        ApiRouter { table, registered, routes, current_group }
    }

    /// The builder with `def` recorded after its routes.
    fn record(self, def: RouteDefinition) -> (res: Self)
        ensures
            res.recorded() == self.recorded().push(def),
            res.registered() == self.registered(),
            res.group_now() == self.group_now(),
    {
        proof {
            use_type_invariant(&self);
        }
        let ApiRouter { table, registered, routes, current_group } = self;
        let mut routes = routes;
        routes.push(def);
        ApiRouter { table, registered, routes, current_group }
    }

    /// Consume the builder and return the router and the recorded route metadata.
    pub fn build(self) -> (res: (Router<S>, RouteCollection))
        ensures
            res.1@ == self.recorded(),
    {
        let ApiRouter { table, registered: _, routes, current_group: _ } = self;
        (table.into_router(), routes)
    }

    /// Start a route: register `handler` at `path` for `method` alone and begin the
    /// route's metadata, named after the handler whose full path is `handler_path`
    /// (its own name in camelCase), in the current group, with no types, no auth
    /// and no redirect. `handler` is the handler as a method router that serves it
    /// for any method (`axum::routing::any(handler)`); the pair (`path`, `method`)
    /// is recorded as registered.
    pub fn route(
        self,
        path: &str,
        method: HttpMethod,
        handler: MethodRouter<S>,
        handler_path: &str,
    ) -> (res: RouteBuilder<S>)
        requires
            self.takes(path@, method),
        ensures
            res.parent_recorded() == self.recorded(),
            res.parent_registered() == self.registered().push((path@, method)),
            res.parent_group() == self.group_now(),
            res.draft().name@ == camel(handler_name(handler_path@)),
            res.draft().method == method,
            res.draft().path@ == path@,
            !res.draft().auth,
            res.draft().body_type is None,
            res.draft().response_type is None,
            res.draft().query_type is None,
            res.draft().path_params@.len() == path_param_names(path@).len(),
            forall|i: int|
                0 <= i < res.draft().path_params@.len() ==> #[trigger] res.draft().path_params@[i].name@
                    == path_param_names(path@)[i] && res.draft().path_params@[i].position == i,
            opt_view(res.draft().group) == self.group_now(),
            !res.draft().redirect,
    {
        proof {
            use_type_invariant(&self);
        }
        let ApiRouter { table, registered, routes, current_group } = self;
        let table = table.route(path, &method, handler);
        let mut registered = registered;
        let ghost before = registered@;
        registered.push((String::from_str(path), method_copy(&method)));
        assert(pairs_view(registered@) =~= pairs_view(before).push((path@, method)));
        let name = snake_to_camel(handler_name_from_type_name(handler_path));
        let group = match &current_group {
            Some(g) => Some(g.clone()),
            None => None,
        };
        let def = RouteDefinition {
            name,
            method,
            path: String::from_str(path),
            auth: false,
            body_type: None,
            response_type: None,
            query_type: None,
            path_params: extract_path_params(path),
            group,
            redirect: false,
        };
        RouteBuilder { parent: ApiRouter { table, registered, routes, current_group }, def }
    }
}

/// `after` is `before` with one route more, finished in `before`'s current group,
/// which stays current: what `route`, any of the setters, then `done` or `as_` give.
pub open spec fn adds_route_in_group<S: Clone + Send + Sync + 'static>(
    before: ApiRouter<S>,
    after: ApiRouter<S>,
) -> bool {
    &&& after.recorded().len() == before.recorded().len() + 1
    &&& after.recorded().drop_last() == before.recorded()
    &&& opt_view(after.recorded().last().group) == before.group_now()
    &&& after.group_now() == before.group_now()
}

impl<S> Default for ApiRouter<S> where S: Clone + Send + Sync + 'static {
    fn default() -> (res: Self)
        ensures
            res.recorded() == Seq::<RouteDefinition>::empty(),
            res.registered() == Seq::<(Seq<char>, HttpMethod)>::empty(),
            res.group_now() is None,
    {
        Self::new()
    }
}

/// In-progress route definition. Set its types, `auth` and `redirect`, then finish
/// it with `done` or `as_`.
#[verifier::reject_recursive_types(S)]
pub struct RouteBuilder<S> where S: Clone + Send + Sync + 'static {
    parent: ApiRouter<S>,
    def: RouteDefinition,
}

impl<S> RouteBuilder<S> where S: Clone + Send + Sync + 'static {
    /// The route being defined carries the builder's current group.
    #[verifier::type_invariant]
    spec fn in_current_group(self) -> bool {
        opt_view(self.def.group) == self.parent.group_now()
    }

    /// The route being defined.
    pub closed spec fn draft(&self) -> RouteDefinition {
        self.def
    }

    /// The routes the builder had recorded when this route was started.
    pub closed spec fn parent_recorded(&self) -> Seq<RouteDefinition> {
        self.parent.recorded()
    }

    /// The pairs registered on the builder's router, this route's included.
    pub closed spec fn parent_registered(&self) -> Seq<(Seq<char>, HttpMethod)> {
        self.parent.registered()
    }

    /// The builder's current group.
    pub closed spec fn parent_group(&self) -> Option<Seq<char>> {
        self.parent.group_now()
    }

    /// Set the request body type, given the type's full name (module paths are
    /// stripped).
    pub fn body_named(self, full_name: &str) -> (res: Self)
        ensures
            res.parent_recorded() == self.parent_recorded(),
            res.parent_registered() == self.parent_registered(),
            res.parent_group() == self.parent_group(),
            opt_view(res.draft().body_type) == Some(stripped(full_name@)),
            res.draft() == (RouteDefinition { body_type: res.draft().body_type, ..self.draft() }),
    {
        proof {
            use_type_invariant(&self);
        }
        let mut s = self;
        s.def.body_type = Some(strip_module_paths(full_name));
        s
    }

    /// Set the response type, given the type's full name (module paths are stripped).
    pub fn response_named(self, full_name: &str) -> (res: Self)
        ensures
            res.parent_recorded() == self.parent_recorded(),
            res.parent_registered() == self.parent_registered(),
            res.parent_group() == self.parent_group(),
            opt_view(res.draft().response_type) == Some(stripped(full_name@)),
            res.draft() == (RouteDefinition {
                response_type: res.draft().response_type,
                ..self.draft()
            }),
    {
        proof {
            use_type_invariant(&self);
        }
        let mut s = self;
        s.def.response_type = Some(strip_module_paths(full_name));
        s
    }

    /// Set the query parameters type, given the type's full name (module paths are
    /// stripped).
    pub fn query_named(self, full_name: &str) -> (res: Self)
        ensures
            res.parent_recorded() == self.parent_recorded(),
            res.parent_registered() == self.parent_registered(),
            res.parent_group() == self.parent_group(),
            opt_view(res.draft().query_type) == Some(stripped(full_name@)),
            res.draft() == (RouteDefinition { query_type: res.draft().query_type, ..self.draft() }),
    {
        proof {
            use_type_invariant(&self);
        }
        let mut s = self;
        s.def.query_type = Some(strip_module_paths(full_name));
        s
    }

    /// Set both body and response types at once, given their full names.
    pub fn json_named(self, body_name: &str, response_name: &str) -> (res: Self)
        ensures
            res.parent_recorded() == self.parent_recorded(),
            res.parent_registered() == self.parent_registered(),
            res.parent_group() == self.parent_group(),
            opt_view(res.draft().body_type) == Some(stripped(body_name@)),
            opt_view(res.draft().response_type) == Some(stripped(response_name@)),
            res.draft() == (RouteDefinition {
                body_type: res.draft().body_type,
                response_type: res.draft().response_type,
                ..self.draft()
            }),
    {
        proof {
            use_type_invariant(&self);
        }
        let mut s = self;
        s.def.body_type = Some(strip_module_paths(body_name));
        s.def.response_type = Some(strip_module_paths(response_name));
        s
    }

    /// Mark this route as requiring authentication.
    pub fn auth(self) -> (res: Self)
        ensures
            res.parent_recorded() == self.parent_recorded(),
            res.parent_registered() == self.parent_registered(),
            res.parent_group() == self.parent_group(),
            res.draft() == (RouteDefinition { auth: true, ..self.draft() }),
    {
        proof {
            use_type_invariant(&self);
        }
        let mut s = self;
        s.def.auth = true;
        s
    }

    /// Mark this route as a browser redirect (URL builder, not fetch).
    pub fn redirect(self) -> (res: Self)
        ensures
            res.parent_recorded() == self.parent_recorded(),
            res.parent_registered() == self.parent_registered(),
            res.parent_group() == self.parent_group(),
            res.draft() == (RouteDefinition { redirect: true, ..self.draft() }),
    {
        proof {
            use_type_invariant(&self);
        }
        let mut s = self;
        s.def.redirect = true;
        s
    }

    /// Finish the route under the name derived from its handler. The route keeps
    /// the group that was current when it was started, which is still current.
    pub fn done(self) -> (res: ApiRouter<S>)
        ensures
            res.recorded() == self.parent_recorded().push(self.draft()),
            res.recorded().drop_last() == self.parent_recorded(),
            res.registered() == self.parent_registered(),
            res.group_now() == self.parent_group(),
            opt_view(res.recorded().last().group) == res.group_now(),
    {
        proof {
            use_type_invariant(&self);
        }
        let RouteBuilder { parent, def } = self;
        assert(parent.recorded().push(def).drop_last() =~= parent.recorded());
        parent.record(def)
    }

    /// Finish the route with an explicit client method name.
    pub fn as_(self, name: &str) -> (res: ApiRouter<S>)
        ensures
            res.recorded().len() == self.parent_recorded().len() + 1,
            res.recorded().drop_last() == self.parent_recorded(),
            res.recorded().last().name@ == name@,
            res.recorded().last() == (RouteDefinition {
                name: res.recorded().last().name,
                ..self.draft()
            }),
            res.registered() == self.parent_registered(),
            res.group_now() == self.parent_group(),
            opt_view(res.recorded().last().group) == res.group_now(),
    {
        proof {
            use_type_invariant(&self);
        }
        let RouteBuilder { parent, def } = self;
        let mut def = def;
        def.name = String::from_str(name);
        parent.record(def)
    }
}

} // verus!
