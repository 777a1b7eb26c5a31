//! The shared router of the server.
use vstd::prelude::*;
use std::sync::Arc;
use crate::http_router::{HttpRouter, RouterView};

verus! {

pub struct WsServer {
    router: Arc<HttpRouter>,
}

impl WsServer {
    pub closed spec fn router_view(&self) -> RouterView {
        (*self.router)@
    }

    pub fn new(router: HttpRouter) -> (s: Self)
        ensures
            s.router_view() == router@,
    {
        Self { router: Arc::new(router) }
    }

    /// The router every connection shares.
    pub fn router(&self) -> (r: &Arc<HttpRouter>)
        ensures
            (**r)@ == self.router_view(),
    {
        &self.router
    }
}

} // verus!
