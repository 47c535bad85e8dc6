//! Route metadata: methods, path parameters, route definitions and collections.

use vstd::prelude::*;
use vstd::std_specs::iter::IteratorSpec;

use crate::text::{char_seqs, chars_to_string, split_chars, split_on, str_chars, sub_chars};

verus! {

/// HTTP method for a route.
#[derive(Debug, Clone, PartialEq, Eq, Structural)]
pub enum HttpMethod {
    Get,
    Post,
    Put,
    Patch,
    Delete,
}

/// The upper-case name of an HTTP method.
pub open spec fn method_name(m: HttpMethod) -> Seq<char> {
    match m {
        HttpMethod::Get => "GET"@,
        HttpMethod::Post => "POST"@,
        HttpMethod::Put => "PUT"@,
        HttpMethod::Patch => "PATCH"@,
        HttpMethod::Delete => "DELETE"@,
    }
}

impl HttpMethod {
    /// The upper-case name of the method, as sent on the wire.
    pub fn as_str(&self) -> (res: &'static str)
        ensures
            res@ == method_name(*self),
    {
        match self {
            HttpMethod::Get => "GET",
            HttpMethod::Post => "POST",
            HttpMethod::Put => "PUT",
            HttpMethod::Patch => "PATCH",
            HttpMethod::Delete => "DELETE",
        }
    }
}

/// A path parameter extracted from a route path (e.g., `{id}` in `/users/{id}`).
#[derive(Debug, Clone, PartialEq, Eq)]
pub struct PathParam {
    pub name: String,
    pub position: usize,
}

/// Definition of a single API route.
#[derive(Debug, Clone)]
pub struct RouteDefinition {
    /// Function name in the generated client (e.g., `register`, `listUsers`).
    pub name: String,
    /// HTTP method.
    pub method: HttpMethod,
    /// Route path (e.g., `/register`, `/admin/users/{id}`).
    pub path: String,
    /// Whether the route requires authentication.
    pub auth: bool,
    /// Rust type name of the request body.
    pub body_type: Option<String>,
    /// Rust type name of the response body.
    pub response_type: Option<String>,
    /// Rust type name for query parameters.
    pub query_type: Option<String>,
    /// Path parameters extracted from the path.
    pub path_params: Vec<PathParam>,
    /// Group name for nested object structure (e.g., `emailPassword`).
    pub group: Option<String>,
    /// Whether this route is a browser redirect (not a fetch call).
    pub redirect: bool,
}

/// A collection of route definitions, kept in the order they were added.
#[derive(Debug, Clone, Default)]
pub struct RouteCollection {
    routes: Vec<RouteDefinition>,
}

impl View for RouteCollection {
    type V = Seq<RouteDefinition>;

    closed spec fn view(&self) -> Seq<RouteDefinition> {
        self.routes@
    }
}

impl RouteCollection {
    /// An empty collection.
    pub fn new() -> (res: Self)
        ensures
            res@ == Seq::<RouteDefinition>::empty(),
    {
        RouteCollection { routes: Vec::new() }
    }

    /// Appends one route at the end.
    pub fn push(&mut self, route: RouteDefinition)
        ensures
            final(self)@ == old(self)@.push(route),
    {
        self.routes.push(route);
    }

    /// Appends all routes of `other`, in their order, after the routes already held.
    pub fn extend(&mut self, other: RouteCollection)
        ensures
            final(self)@ == old(self)@ + other@,
    {
        let mut other = other;
        self.routes.append(&mut other.routes);
    }

    /// The routes, in order.
    pub fn routes(&self) -> (res: &[RouteDefinition])
        ensures
            res@ == self@,
    {
        self.routes.as_slice()
    }

    /// The number of routes.
    pub fn len(&self) -> (res: usize)
        ensures
            res == self@.len(),
    {
        self.routes.len()
    }

    /// Whether the collection holds no route.
    pub fn is_empty(&self) -> (res: bool)
        ensures
            res == (self@.len() == 0),
    {
        self.routes.len() == 0
    }

    /// An iterator over the routes, in order.
    pub fn iter(&self) -> (res: std::slice::Iter<'_, RouteDefinition>)
        ensures
            res.remaining().unref() == self@,
    {
        let it = self.routes.as_slice().iter();
        proof {
            broadcast use vstd::std_specs::slice::axiom_spec_slice_iter;

            assert(it.remaining().unref() =~= self@);
        }
        it
    }
}

impl IntoIterator for RouteCollection {
    type Item = RouteDefinition;
    type IntoIter = std::vec::IntoIter<RouteDefinition>;

    fn into_iter(self) -> (res: Self::IntoIter)
        ensures
            res.remaining() == self@,
    {
        let it = self.routes.into_iter();
        proof {
            broadcast use vstd::std_specs::vec::axiom_spec_into_iter;

        }
        it
    }
}

impl<'a> IntoIterator for &'a RouteCollection {
    type Item = &'a RouteDefinition;
    type IntoIter = std::slice::Iter<'a, RouteDefinition>;

    fn into_iter(self) -> (res: Self::IntoIter)
        ensures
            res.remaining().unref() == self@,
    {
        let it = self.routes.as_slice().iter();
        proof {
            broadcast use vstd::std_specs::slice::axiom_spec_slice_iter;

            assert(it.remaining().unref() =~= self@);
        }
        it
    }
}

/// Whether a path segment is a `{name}` placeholder.
pub open spec fn is_param_segment(seg: Seq<char>) -> bool {
    seg.len() >= 2 && seg[0] == '{' && seg.last() == '}'
}

/// The names of the `{name}` segments among `segs`, in order.
pub open spec fn param_names(segs: Seq<Seq<char>>) -> Seq<Seq<char>>
    decreases segs.len(),
{
    if segs.len() == 0 {
        Seq::<Seq<char>>::empty()
    } else {
        let front = param_names(segs.drop_last());
        if is_param_segment(segs.last()) {
            front.push(segs.last().subrange(1, segs.last().len() - 1))
        } else {
            front
        }
    }
}

/// The names of the path parameters of `path`: each `/`-separated segment of the form
/// `{name}`, in order.
pub open spec fn path_param_names(path: Seq<char>) -> Seq<Seq<char>> {
    param_names(split_on(path, '/'))
}

/// Extract path parameters from a route path string.
///
/// For example, `/admin/users/{id}` gives one parameter `id` at position 0.
pub fn extract_path_params(path: &str) -> (res: Vec<PathParam>)
    ensures
        res@.len() == path_param_names(path@).len(),
        forall|i: int|
            0 <= i < res@.len() ==> #[trigger] res@[i].name@ == path_param_names(path@)[i]
                && res@[i].position == i,
{
    let chars = str_chars(path);
    let segs = split_chars(chars.as_slice(), '/');
    let ghost all = char_seqs(segs@);
    let mut params: Vec<PathParam> = Vec::new();
    let n = segs.len();
    let mut k: usize = 0;
    while k < n
        invariant
            n == segs@.len(),
            all == char_seqs(segs@),
            all == split_on(path@, '/'),
            k <= n,
            params@.len() == param_names(all.take(k as int)).len(),
            forall|i: int|
                0 <= i < params@.len() ==> #[trigger] params@[i].name@ == param_names(
                    all.take(k as int),
                )[i] && params@[i].position == i,
        decreases n - k,
    {
        assert(all.take(k + 1).drop_last() =~= all.take(k as int));
        let seg = &segs[k];
        let ghost prev = param_names(all.take(k as int));
        let ghost next = param_names(all.take(k + 1));
        assert(seg@ == all[k as int]);
        assert(all.take(k + 1).last() == all[k as int]);
        assert(is_param_segment(seg@) ==> next == prev.push(seg@.subrange(1, seg@.len() - 1)));
        assert(!is_param_segment(seg@) ==> next == prev);
        let len = seg.len();
        if len >= 2 && seg[0] == '{' && seg[len - 1] == '}' {
            let name = sub_chars(seg.as_slice(), 1, len - 1);
            let pos = params.len();
            let ghost before = params@;
            params.push(PathParam { name: chars_to_string(name.as_slice()), position: pos });
            assert(forall|i: int| 0 <= i < before.len() ==> params@[i] == before[i]);
            assert(params@[before.len() as int].name@ == next[before.len() as int]);
        }
        k = k + 1;
    }
    assert(all.take(n as int) =~= all);
    params
}

} // verus!
