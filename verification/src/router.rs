//! The router: a pure dispatch function from a parsed request to the
//! response of the handler its method and path select.

use vstd::prelude::*;
use crate::handler::{
    not_found_spec, static_page_spec, web_service_spec, PageNotFoundHandler, StaticPageHandler,
    WebServiceHandler,
};
use crate::http_request::{HttpRequest, Method, ReqModel};
use crate::http_response::{opt_str_view, HttpResponse, RespModel};
use crate::strmap::StrMap;
use crate::text::{split_char, split_char_exec, str_eq, views};

verus! {

/// The dispatch rule: a request whose method is not GET goes to the
/// not-found handler whatever its path; a GET request whose first path
/// component is `api` goes to the web-service handler; every other GET
/// request goes to the static-page handler.
pub open spec fn route_spec(
    req: ReqModel,
    store: Seq<(Seq<char>, Seq<char>)>,
    orders_json: Option<Seq<char>>,
) -> RespModel {
    if req.method != Method::Get {
        not_found_spec(store)
    } else {
        let segs = split_char(req.resource, '/');
        if segs.len() >= 2 && segs[1] == "api"@ {
            web_service_spec(req, orders_json, store)
        } else {
            static_page_spec(req, store)
        }
    }
}

/// The stateless router.
pub struct Router;

impl Router {
    /// Selects and runs the handler for a request. The loaded page store and
    /// the serialized order list arrive from their collaborators; the
    /// response goes back to the caller, which writes its wire text to the
    /// connection.
    pub fn route(req: &HttpRequest, store: &StrMap, orders_json: Option<String>) -> (r:
        HttpResponse)
        ensures
            r@ == route_spec(req@, store@, opt_str_view(orders_json)),
    {
        match req.method {
            Method::Get => {
                let segs = split_char_exec(req.resource.0.as_str(), '/');
                proof {
                    assert(views(segs@) == split_char(req@.resource, '/'));
                }
                if segs.len() >= 2 && str_eq(segs[1].as_str(), "api") {
                    WebServiceHandler::handle(req, orders_json, store)
                } else {
                    StaticPageHandler::handle(req, store)
                }
            },
            _ => PageNotFoundHandler::handle(req, store),
        }
    }
}

/// Routing is deterministic: requests equal in value, given equal
/// collaborator data, produce responses equal in value — in particular equal
/// in status code, status text, headers and body.
pub proof fn lemma_route_deterministic(
    req1: ReqModel,
    req2: ReqModel,
    store1: Seq<(Seq<char>, Seq<char>)>,
    store2: Seq<(Seq<char>, Seq<char>)>,
    orders1: Option<Seq<char>>,
    orders2: Option<Seq<char>>,
)
    requires
        req1 == req2,
        store1 == store2,
        orders1 == orders2,
    ensures
        route_spec(req1, store1, orders1) == route_spec(req2, store2, orders2),
{
}

/// A request whose method is not GET routes to the not-found handler and
/// gets its 404 response, whatever its resource.
pub proof fn lemma_non_get_routes_not_found(
    req: ReqModel,
    store: Seq<(Seq<char>, Seq<char>)>,
    orders_json: Option<Seq<char>>,
)
    requires
        req.method != Method::Get,
    ensures
        route_spec(req, store, orders_json) == not_found_spec(store),
        route_spec(req, store, orders_json).status_code == "404"@,
        route_spec(req, store, orders_json).status_text == "Not Found"@,
{
    reveal_strlit("404");
    reveal_strlit("200");
    reveal_strlit("400");
    assert("404"@[0] == '4' && "200"@[0] == '2');
    assert("404"@[2] == '4' && "400"@[2] == '0');
    assert("404"@ != "200"@ && "404"@ != "400"@);
}

} // verus!
