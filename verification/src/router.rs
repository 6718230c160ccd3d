//! A router: a table from paths to the callbacks that answer requests.
use crate::assoc::{as_map, find, keys_distinct, put};
use std::collections::HashMap;
use vstd::prelude::*;

verus! {

/// A request to be routed.
pub struct Request {
    pub method: String,
    pub url: String,
    pub headers: HashMap<String, String>,
    pub body: Vec<u8>,
}

/// The answer to a request.
pub struct Response {
    pub code: u32,
    pub headers: HashMap<String, String>,
    pub body: Vec<u8>,
}

impl Default for Request {
    /// A request with nothing in it.
    fn default() -> (request: Self)
        ensures
            request.method@.len() == 0,
            request.url@.len() == 0,
            request.headers@.len() == 0,
            request.body@.len() == 0,
    {
        Self { method: String::new(), url: String::new(), headers: HashMap::new(), body: Vec::new() }
    }
}

impl Default for Response {
    /// A response with nothing in it, and the code zero.
    fn default() -> (response: Self)
        ensures
            response.code == 0,
            response.headers@.len() == 0,
            response.body@.len() == 0,
    {
        Self { code: 0, headers: HashMap::new(), body: Vec::new() }
    }
}

/// The code of the answer to a request that no route matches.
pub const ERROR_CODE: u32 = 500;

impl Response {
    /// Whether this is the answer to a request that could not be served.
    pub fn is_error(&self) -> (b: bool)
        ensures
            b == (self.code == ERROR_CODE),
    {
        self.code == ERROR_CODE
    }

    /// The answer to a request that no route matches: the error code, no
    /// headers and an empty body.
    pub fn error() -> (r: Self)
        ensures
            r.code == ERROR_CODE,
            r.headers@.len() == 0,
            r.body@.len() == 0,
    {
        Self { code: ERROR_CODE, headers: HashMap::new(), body: Vec::new() }
    }
}

/// Answers `req` with the callback of its URL, or with the error response
/// if no route has that URL.
fn answer<F: Fn(&Request) -> Response>(routes: &Vec<(String, F)>, req: &Request) -> (r: Response)
    requires
        keys_distinct(routes@),
        as_map(routes@).contains_key(req.url@) ==> call_requires(
            as_map(routes@)[req.url@],
            (req,),
        ),
    ensures
        match as_map(routes@).get(req.url@) {
            Some(callback) => call_ensures(callback, (req,), r),
            None => r.code == ERROR_CODE && r.headers@.len() == 0 && r.body@.len() == 0,
        },
{
    match find(routes, &req.url) {
        Some(i) => (routes[i].1)(req),
        None => Response::error(),
    }
}

/// A router whose callbacks all have one type, such as a function pointer.
/// Its view is the map from paths to callbacks.
pub struct FnPointerRouter<F> {
    routes: Vec<(String, F)>,
}

impl<F> View for FnPointerRouter<F> {
    type V = Map<Seq<char>, F>;

    closed spec fn view(&self) -> Map<Seq<char>, F> {
        as_map(self.routes@)
    }
}

impl<F> FnPointerRouter<F> {
    #[verifier::type_invariant]
    spec fn distinct(&self) -> bool {
        keys_distinct(self.routes@)
    }
}

impl<F: Fn(&Request) -> Response> FnPointerRouter<F> {
    /// A router without routes.
    pub fn new() -> (router: Self)
        ensures
            router@ == Map::<Seq<char>, F>::empty(),
    {
        let router = Self { routes: Vec::new() };
        proof {
            assert(router@ =~= Map::<Seq<char>, F>::empty());
        }
        router
    }

    /// The router with `callback` as the route for `path`, in place of the
    /// one that was there, if any.
    pub fn add(self, path: &str, callback: F) -> (router: Self)
        ensures
            router@ == self@.insert(path@, callback),
    {
        proof {
            use_type_invariant(&self);
        }
        let mut routes = self.routes;
        put(&mut routes, path.to_owned(), callback);
        Self { routes }
    }

    /// Answers `req` with the callback of its URL, or with the error
    /// response if no route has that URL.
    pub fn route(&self, req: &Request) -> (r: Response)
        requires
            self@.contains_key(req.url@) ==> call_requires(self@[req.url@], (req,)),
        ensures
            match self@.get(req.url@) {
                Some(callback) => call_ensures(callback, (req,), r),
                None => r.code == ERROR_CODE && r.headers@.len() == 0 && r.body@.len() == 0,
            },
    {
        proof {
            use_type_invariant(self);
        }
        answer(&self.routes, req)
    }
}

/// A router whose callbacks are closures of one type, such as a boxed
/// closure. Its view is the map from paths to callbacks.
pub struct ClosureRouter<C> {
    routes: Vec<(String, C)>,
}

impl<C> View for ClosureRouter<C> {
    type V = Map<Seq<char>, C>;

    closed spec fn view(&self) -> Map<Seq<char>, C> {
        as_map(self.routes@)
    }
}

impl<C> ClosureRouter<C> {
    #[verifier::type_invariant]
    spec fn distinct(&self) -> bool {
        keys_distinct(self.routes@)
    }
}

impl<C: Fn(&Request) -> Response> ClosureRouter<C> {
    /// A router without routes.
    pub fn new() -> (router: Self)
        ensures
            router@ == Map::<Seq<char>, C>::empty(),
    {
        let router = Self { routes: Vec::new() };
        proof {
            assert(router@ =~= Map::<Seq<char>, C>::empty());
        }
        router
    }

    /// The router with `callback` as the route for `path`, in place of the
    /// one that was there, if any.
    pub fn add(self, path: &str, callback: C) -> (router: Self)
        ensures
            router@ == self@.insert(path@, callback),
    {
        proof {
            use_type_invariant(&self);
        }
        let mut routes = self.routes;
        put(&mut routes, path.to_owned(), callback);
        Self { routes }
    }

    /// Answers `req` with the callback of its URL, or with the error
    /// response if no route has that URL.
    pub fn route(&self, req: &Request) -> (r: Response)
        requires
            self@.contains_key(req.url@) ==> call_requires(self@[req.url@], (req,)),
        ensures
            match self@.get(req.url@) {
                Some(callback) => call_ensures(callback, (req,), r),
                None => r.code == ERROR_CODE && r.headers@.len() == 0 && r.body@.len() == 0,
            },
    {
        proof {
            use_type_invariant(self);
        }
        answer(&self.routes, req)
    }
}

} // verus!
