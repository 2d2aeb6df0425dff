//! The handler set: three handlers that each build a response from a parsed
//! request. Static pages and the order list come from outside collaborators:
//! the caller hands in the loaded page store and the order list's JSON text,
//! and the handlers decide the status, headers and body.

use vstd::prelude::*;
use vstd::string::*;
use crate::http_request::{HttpRequest, ReqModel};
use crate::http_response::{new_spec, opt_str_view, HttpResponse, RespModel};
use crate::strmap::{lookup, StrMap};
use crate::text::{ends_with, ends_with_exec, split_char, split_char_exec, str_eq, views};

verus! {

/// A record of the demo order-status data source. The web-service handler
/// serves the list of these, serialized to JSON by the data collaborator.
#[derive(Debug, PartialEq, Clone)]
pub struct OrderStatus {
    pub order_id: i32,
    pub order_date: String,
    pub order_status: String,
}

/// Always responds 404, with the store's `404.html` page as best-effort body.
pub struct PageNotFoundHandler;

/// Serves pages of the static store by the request's path.
pub struct StaticPageHandler;

/// Serves the order list under the shipping/orders path.
pub struct WebServiceHandler;

/// The page stored under `name`, cloned out of the store.
fn load_page(store: &StrMap, name: &str) -> (r: Option<String>)
    ensures
        opt_str_view(r) == lookup(store@, name@),
{
    match store.get(name) {
        Some(v) => Some(v.clone()),
        None => None,
    }
}

/// The not-found response: status 404, the store's `404.html` page (if the
/// store holds one) as body, default headers.
pub open spec fn not_found_spec(store: Seq<(Seq<char>, Seq<char>)>) -> RespModel {
    new_spec("404"@, None, lookup(store, "404.html"@))
}

impl PageNotFoundHandler {
    /// Responds 404; the body is the store's `404.html` page when present.
    pub fn handle(_req: &HttpRequest, store: &StrMap) -> (r: HttpResponse)
        ensures
            r@ == not_found_spec(store@),
    {
        HttpResponse::new("404", None, load_page(store, "404.html"))
    }
}

/// The content type the static handler picks by file extension.
pub open spec fn content_type_of(name: Seq<char>) -> Seq<char> {
    if ends_with(name, ".css"@) {
        "text/css"@
    } else if ends_with(name, ".js"@) {
        "text/javascript"@
    } else {
        "text/html"@
    }
}

/// The static-page response: the first path component picks the index page
/// (when empty), the health page, or a stored file served with a content
/// type chosen by its extension; a file the store lacks gives the not-found
/// response, as does a path without components.
pub open spec fn static_page_spec(req: ReqModel, store: Seq<(Seq<char>, Seq<char>)>) -> RespModel {
    let segs = split_char(req.resource, '/');
    if segs.len() < 2 {
        not_found_spec(store)
    } else if segs[1] == ""@ {
        new_spec("200"@, None, lookup(store, "index.html"@))
    } else if segs[1] == "health"@ {
        new_spec("200"@, None, lookup(store, "health.html"@))
    } else {
        match lookup(store, segs[1]) {
            Some(contents) => new_spec(
                "200"@,
                Some(seq![("Content-Type"@, content_type_of(segs[1]))]),
                Some(contents),
            ),
            None => not_found_spec(store),
        }
    }
}

impl StaticPageHandler {
    /// Serves the page the request's path names out of the store.
    pub fn handle(req: &HttpRequest, store: &StrMap) -> (r: HttpResponse)
        ensures
            r@ == static_page_spec(req@, store@),
    {
        let segs = split_char_exec(req.resource.0.as_str(), '/');
        proof {
            reveal_strlit("");
        }
        if segs.len() < 2 {
            PageNotFoundHandler::handle(req, store)
        } else {
            let seg = segs[1].as_str();
            proof {
                assert(views(segs@)[1] == seg@);
            }
            if seg.unicode_len() == 0 {
                proof {
                    assert(seg@ =~= ""@);
                }
                HttpResponse::new("200", None, load_page(store, "index.html"))
            } else if str_eq(seg, "health") {
                HttpResponse::new("200", None, load_page(store, "health.html"))
            } else {
                match load_page(store, seg) {
                    Some(contents) => {
                        let ct = if ends_with_exec(seg, ".css") {
                            "text/css"
                        } else if ends_with_exec(seg, ".js") {
                            "text/javascript"
                        } else {
                            "text/html"
                        };
                        let mut m = StrMap::new();
                        m.insert(String::from_str("Content-Type"), ct.to_owned());
                        proof {
                            assert(m@ =~= seq![("Content-Type"@, content_type_of(seg@))]);
                        }
                        HttpResponse::new("200", Some(m), Some(contents))
                    },
                    None => PageNotFoundHandler::handle(req, store),
                }
            }
        }
    }
}

/// The web-service response: under a path whose third component is
/// `shipping` and whose fourth is `orders`, the order list's JSON with
/// content type `application/json` — or a plain 500 response when the order
/// data is unavailable; under any other path, the not-found response.
pub open spec fn web_service_spec(
    req: ReqModel,
    orders_json: Option<Seq<char>>,
    store: Seq<(Seq<char>, Seq<char>)>,
) -> RespModel {
    let segs = split_char(req.resource, '/');
    if segs.len() > 3 && segs[2] == "shipping"@ && segs[3] == "orders"@ {
        match orders_json {
            Some(j) => new_spec(
                "200"@,
                Some(seq![("Content-Type"@, "application/json"@)]),
                Some(j),
            ),
            None => new_spec("500"@, None, None),
        }
    } else {
        not_found_spec(store)
    }
}

impl WebServiceHandler {
    /// Serves the order list's JSON under the shipping/orders path. The
    /// order data arrives from its collaborator already serialized
    /// (`orders_json`); its absence becomes a 500 response.
    pub fn handle(req: &HttpRequest, orders_json: Option<String>, store: &StrMap) -> (r:
        HttpResponse)
        ensures
            r@ == web_service_spec(req@, opt_str_view(orders_json), store@),
    {
        let segs = split_char_exec(req.resource.0.as_str(), '/');
        if segs.len() > 3 && str_eq(segs[2].as_str(), "shipping") && str_eq(
            segs[3].as_str(),
            "orders",
        ) {
            match orders_json {
                Some(j) => {
                    let mut m = StrMap::new();
                    m.insert(
                        String::from_str("Content-Type"),
                        String::from_str("application/json"),
                    );
                    proof {
                        assert(m@ =~= seq![("Content-Type"@, "application/json"@)]);
                    }
                    HttpResponse::new("200", Some(m), Some(j))
                },
                None => HttpResponse::new("500", None, None),
            }
        } else {
            PageNotFoundHandler::handle(req, store)
        }
    }
}

} // verus!
