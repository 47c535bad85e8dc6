//! An Axum router together with the record of what is registered on it.
//!
//! A [`RouteTable`] is made only by the three operations of this module, each a
//! call into Axum: [`RouteTable::new`], [`RouteTable::route`] and
//! [`RouteTable::merge`]. Its fields are private, so every table that exists was
//! built by them, and its record lists the (path, method) pairs on its router.

use vstd::prelude::*;

use axum::routing::{on, MethodFilter, MethodRouter};
use axum::Router;

use crate::route_paths::{records_fit, route_fits, route_path_ok};
use crate::types::HttpMethod;

verus! {

#[verifier::external_type_specification]
#[verifier::external_body]
#[verifier::reject_recursive_types(S)]
pub struct ExRouter<S>(Router<S>);

#[verifier::external_type_specification]
#[verifier::external_body]
#[verifier::reject_recursive_types(S)]
#[verifier::reject_recursive_types(E)]
pub struct ExMethodRouter<S, E>(MethodRouter<S, E>);

/// An Axum router and the (path, method) pairs registered on it, in order.
///
/// Every pair was registered with a method router that serves its method alone
/// and has no fallback; the router has no custom fallback, and it has used at
/// most one route id per pair.
#[verifier::reject_recursive_types(S)]
pub struct RouteTable<S> where S: Clone + Send + Sync + 'static {
    router: Router<S>,
    pairs: Ghost<Seq<(Seq<char>, HttpMethod)>>,
}

impl<S> RouteTable<S> where S: Clone + Send + Sync + 'static {
    /// The (path, method) pairs registered on the router, in order.
    pub closed spec fn pairs(&self) -> Seq<(Seq<char>, HttpMethod)> {
        self.pairs@
    }

    /// `axum::Router::new`: a router with no routes, so an empty record.
    #[verifier::external_body]
    pub(crate) fn new() -> (res: Self)
        ensures
            res.pairs() == Seq::<(Seq<char>, HttpMethod)>::empty(),
    {
        RouteTable { router: Router::new(), pairs: Ghost(Seq::empty()) }
    }

    /// `axum::Router::route` with `axum::routing::on`: `handler` registered at
    /// `path` for `method` alone.
    ///
    /// `on` builds a fresh method router that serves `method` alone, with no
    /// fallback, whatever `handler` is (it is called as the handler). Axum's
    /// `route` then panics when its path check or its matcher refuses `path` (see
    /// [`route_path_ok`]), when `path` is registered already for `method`
    /// ("Overlapping method route"), when `path` clashes with another registered
    /// path (see [`crate::route_paths::paths_clash`]), and when its `u32` route
    /// ids run out (it uses one per new path). The `requires` rules these out over
    /// the record, which the `ensures` extends by the new pair.
    #[verifier::external_body]
    pub(crate) fn route(self, path: &str, method: &HttpMethod, handler: MethodRouter<S>) -> (res:
        Self)
        requires
            route_path_ok(path@),
            route_fits(self.pairs(), path@, *method),
            self.pairs().len() < u32::MAX,
        ensures
            res.pairs() == self.pairs().push((path@, *method)),
    {
        let filter = match method {
            HttpMethod::Get => MethodFilter::GET,
            HttpMethod::Post => MethodFilter::POST,
            HttpMethod::Put => MethodFilter::PUT,
            HttpMethod::Patch => MethodFilter::PATCH,
            HttpMethod::Delete => MethodFilter::DELETE,
        };
        let router = self.router.route(path, on(filter, handler));
        RouteTable { router, pairs: Ghost(self.pairs@.push((path@, *method))) }
    }

    /// `axum::Router::merge`: a router serving the routes of both.
    ///
    /// Axum registers each route of `other` on this router as `route` does: it
    /// panics when a pair is in both records, when a path of one clashes with a
    /// path of the other, and when the route ids run out; it also panics when
    /// both routers have a custom fallback, which no table has. The `requires`
    /// rules these out over the two records, and the `ensures` joins them.
    #[verifier::external_body]
    pub(crate) fn merge(self, other: Self) -> (res: Self)
        requires
            records_fit(self.pairs(), other.pairs()),
            self.pairs().len() + other.pairs().len() <= u32::MAX,
        ensures
            res.pairs() == self.pairs() + other.pairs(),
    {
        let router = self.router.merge(other.router);
        RouteTable { router, pairs: Ghost(self.pairs@ + other.pairs@) }
    }

    /// The router.
    pub(crate) fn into_router(self) -> Router<S> {
        self.router
    }
}

} // verus!
