//! Routes from method and exact request target to a handler, with error pages for the rest.
use vstd::prelude::*;
use std::sync::Arc;
use crate::file_storage::FileStorage;
use crate::handler::{Handler, handled, error_response, error_page, lines_view, not_found_page, not_allowed_page};
use crate::http_request::{HttpRequest, RequestView};
use crate::http_response::{HttpResponse, ResponseView, StatusType};
use crate::keyed::{last_wins, lemma_last_wins_has, lemma_last_wins_value};
use crate::method::{Method, method_named};
use crate::text::str_eq;

verus! {

pub struct Route {
    pub method: Method,
    pub uri: String,
    pub handler: Handler,
}

pub open spec fn route_pairs(routes: Seq<Route>) -> Seq<((Method, Seq<char>), Handler)> {
    routes.map_values(|r: Route| ((r.method, r.uri@), r.handler))
}

/// The routes by method and target, and the files that error pages come from.
pub ghost struct RouterView {
    pub routes: Map<(Method, Seq<char>), Handler>,
    pub files: Map<Seq<char>, Seq<u8>>,
}

/// Some route is registered for method `m`.
pub open spec fn has_method(routes: Map<(Method, Seq<char>), Handler>, m: Method) -> bool {
    exists|u: Seq<char>| routes.contains_key((m, u))
}

/// The response and log after the router handled `req`: 405 for a method it does not know or
/// has no route for, 404 for a target without a route, and otherwise what the route's handler
/// makes of it.
pub open spec fn routed(r: RouterView, req: RequestView, resp: ResponseView, log: Seq<Seq<char>>) -> (ResponseView, Seq<Seq<char>>) {
    match method_named(req.method) {
        None => (error_response(r.files, StatusType::MethodNotAllowed, not_allowed_page()), log),
        Some(m) => if !has_method(r.routes, m) {
            (error_response(r.files, StatusType::MethodNotAllowed, not_allowed_page()), log)
        } else if !r.routes.contains_key((m, req.uri)) {
            (error_response(r.files, StatusType::NotFound, not_found_page()), log)
        } else {
            handled(r.routes[(m, req.uri)], req, resp, log)
        },
    }
}

pub struct HttpRouter {
    routes: Vec<Route>,
    file_storage: Arc<FileStorage>,
}

impl View for HttpRouter {
    type V = RouterView;

    closed spec fn view(&self) -> RouterView {
        RouterView { routes: last_wins(route_pairs(self.routes@)), files: (*self.file_storage)@ }
    }
}

impl HttpRouter {
    pub fn new(file_storage: Arc<FileStorage>) -> (r: Self)
        ensures
            r@.routes == Map::<(Method, Seq<char>), Handler>::empty(),
            r@.files == (*file_storage)@,
    {
        let r = Self { routes: Vec::new(), file_storage };
        assert(route_pairs(r.routes@) =~= Seq::empty());
        r
    }

    /// Registers `handler` for `method` and `uri`, in place of any handler there.
    pub fn add_route(&mut self, method: Method, uri: String, handler: Handler)
        ensures
            final(self)@.routes == old(self)@.routes.insert((method, uri@), handler),
            final(self)@.files == old(self)@.files,
    {
        let ghost before = self.routes@;
        self.routes.push(Route { method, uri, handler });
        assert(route_pairs(self.routes@).drop_last() =~= route_pairs(before));
    }

    fn has_routes_for(&self, m: Method) -> (r: bool)
        ensures
            r == has_method(self@.routes, m),
    {
        let ghost pairs = route_pairs(self.routes@);
        let mut i: usize = 0;
        while i < self.routes.len()
            invariant
                i <= self.routes@.len(),
                pairs == route_pairs(self.routes@),
                forall|j: int| 0 <= j < i ==> (#[trigger] pairs[j]).0.0 != m,
            decreases self.routes@.len() - i,
        {
            if self.routes[i].method == m {
                proof {
                    lemma_last_wins_has(pairs, pairs[i as int].0);
                }
                return true;
            }
            i = i + 1;
        }
        proof {
            if has_method(self@.routes, m) {
                let u = choose|u: Seq<char>| self@.routes.contains_key((m, u));
                lemma_last_wins_has(pairs, (m, u));
            }
        }
        false
    }

    /// The index of the route for `m` and `uri`, if there is one.
    fn find_route(&self, m: Method, uri: &str) -> (r: Option<usize>)
        ensures
            match r {
                Some(i) => i < self.routes@.len() && self@.routes.contains_key((m, uri@))
                    && self@.routes[(m, uri@)] == self.routes@[i as int].handler,
                None => !self@.routes.contains_key((m, uri@)),
            },
    {
        let ghost pairs = route_pairs(self.routes@);
        let mut i: usize = self.routes.len();
        while i > 0
            invariant
                i <= self.routes@.len(),
                pairs == route_pairs(self.routes@),
                forall|j: int| i <= j < self.routes@.len() ==> (#[trigger] pairs[j]).0 != (m, uri@),
            decreases i,
        {
            i = i - 1;
            if self.routes[i].method == m && str_eq(self.routes[i].uri.as_str(), uri) {
                proof {
                    lemma_last_wins_value(pairs, i as int);
                }
                return Some(i);
            }
        }
        proof {
            lemma_last_wins_has(pairs, (m, uri@));
        }
        None
    }

    /// Fills `response` for `request` as `routed` says; loggers on the way append to `log`.
    pub fn handle(&self, request: &HttpRequest, response: &mut HttpResponse, log: &mut Vec<String>)
        ensures
            (final(response)@, lines_view(final(log)@)) == routed(
                self@,
                request@,
                old(response)@,
                lines_view(old(log)@),
            ),
    {
        let method = match Method::from_str(request.method.as_str()) {
            Ok(method) => method,
            Err(_) => {
                self.handle_error("405.html", StatusType::MethodNotAllowed, response);
                return;
            },
        };
        if !self.has_routes_for(method) {
            self.handle_error("405.html", StatusType::MethodNotAllowed, response);
            return;
        }
        match self.find_route(method, request.uri.as_str()) {
            Some(i) => self.routes[i].handler.handle(request, response, log),
            None => self.handle_error("404.html", StatusType::NotFound, response),
        }
    }

    fn handle_error(&self, error_file: &str, status: StatusType, response: &mut HttpResponse)
        ensures
            final(response)@ == error_response(self@.files, status, error_file@),
    {
        *response = error_page(&self.file_storage, status, error_file);
    }
}

/// A target that has no route under a method that has some gets status 404 and the store's
/// `404.html`; a method without routes, or not a method at all, gets status 405 and
/// `405.html`. The log is left as it was.
pub proof fn lemma_router_error_pages(r: RouterView, req: RequestView, resp: ResponseView, log: Seq<Seq<char>>)
    requires
        r.files.contains_key(not_found_page()),
        r.files.contains_key(not_allowed_page()),
    ensures
        (method_named(req.method) matches Some(m) && has_method(r.routes, m) && !r.routes.contains_key((m, req.uri)))
            ==> routed(r, req, resp, log).0.status == StatusType::NotFound
                && routed(r, req, resp, log).0.body == r.files[not_found_page()]
                && routed(r, req, resp, log).1 == log,
        (method_named(req.method) is None || !has_method(r.routes, method_named(req.method)->Some_0))
            ==> routed(r, req, resp, log).0.status == StatusType::MethodNotAllowed
                && routed(r, req, resp, log).0.body == r.files[not_allowed_page()]
                && routed(r, req, resp, log).1 == log,
{
}

} // verus!
