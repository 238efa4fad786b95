//! The HTTP surface of the service: which handler answers which request.

use vstd::prelude::*;

verus! {

/// The request methods the service answers.
#[derive(Clone, Copy, Debug, PartialEq, Eq, Structural)]
pub enum Method {
    Get,
    Post,
}

/// The handlers of the service.
#[derive(Clone, Copy, Debug, PartialEq, Eq, Structural)]
pub enum Handler {
    /// Serves the upload form.
    Index,
    /// Converts the uploaded images and answers with the archive.
    Upload,
}

/// One mounted route.
#[derive(Clone, Debug, PartialEq, Eq)]
pub struct Route {
    pub method: Method,
    pub path: String,
    pub handler: Handler,
}

/// A route as plain values.
pub struct RouteView {
    pub method: Method,
    pub path: Seq<char>,
    pub handler: Handler,
}

impl View for Route {
    type V = RouteView;

    open spec fn view(&self) -> RouteView {
        RouteView { method: self.method, path: self.path@, handler: self.handler }
    }
}

/// The routes the service is launched with.
pub open spec fn mounted_routes() -> Seq<RouteView> {
    seq![
        RouteView { method: Method::Get, path: "/"@, handler: Handler::Index },
        RouteView { method: Method::Post, path: "/upload"@, handler: Handler::Upload },
    ]
}

/// The routes the service is launched with: the upload form at `GET /` and
/// the conversion endpoint at `POST /upload`.
pub fn rocket() -> (routes: Vec<Route>)
    ensures
        routes@.map_values(|r: Route| r@) == mounted_routes(),
{
    let mut routes: Vec<Route> = Vec::new();
    routes.push(Route { method: Method::Get, path: String::from_str("/"), handler: Handler::Index });
    routes.push(
        Route { method: Method::Post, path: String::from_str("/upload"), handler: Handler::Upload },
    );
    assert(routes@.map_values(|r: Route| r@) =~= mounted_routes());
    routes
}

} // verus!
