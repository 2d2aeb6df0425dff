use httpserver::http_request::HttpRequest;
use httpserver::router::Router;
use httpserver::server::Server;
use httpserver::strmap::StrMap;

fn demo_store() -> StrMap {
    let mut store = StrMap::new();
    store.insert("index.html".into(), "<h1>Index</h1>".into());
    store.insert("health.html".into(), "<h1>Healthy</h1>".into());
    store.insert("style.css".into(), "body { margin: 0 }".into());
    store.insert("app.js".into(), "console.log(1)".into());
    store.insert("404.html".into(), "<h1>Not Found</h1>".into());
    store
}

fn demo_orders_json() -> String {
    let mut first = serde_json::Map::new();
    first.insert("order_id".to_string(), serde_json::Value::from(1));
    first.insert("order_date".to_string(), serde_json::Value::from("2024-01-01"));
    first.insert("order_status".to_string(), serde_json::Value::from("shipped"));
    let mut second = serde_json::Map::new();
    second.insert("order_id".to_string(), serde_json::Value::from(2));
    second.insert("order_date".to_string(), serde_json::Value::from("2024-01-02"));
    second.insert("order_status".to_string(), serde_json::Value::from("pending"));
    let list = serde_json::Value::Array(vec![
        serde_json::Value::Object(first),
        serde_json::Value::Object(second),
    ]);
    serde_json::to_string(&list).unwrap()
}

#[test]
fn get_api_shipping_orders_serves_the_order_list() {
    let req = HttpRequest::from("GET /api/shipping/orders HTTP/1.1\r\n\r\n");
    let orders = demo_orders_json();
    let resp = Router::route(&req, &demo_store(), Some(orders.clone()));
    assert_eq!(resp.status_code(), "200");
    assert_eq!(
        resp.headers.as_ref().unwrap().get("Content-Type"),
        Some(&"application/json".to_string())
    );
    assert_eq!(resp.body(), orders.as_str());
    // The body is valid JSON and decodes back to the loaded order list.
    let decoded: serde_json::Value = serde_json::from_str(resp.body()).unwrap();
    let expected: serde_json::Value = serde_json::from_str(orders.as_str()).unwrap();
    assert_eq!(decoded, expected);
}

#[test]
fn post_always_routes_to_not_found() {
    let req = HttpRequest::from("POST /api/shipping/orders HTTP/1.1\r\n\r\n");
    let resp = Router::route(&req, &demo_store(), Some(demo_orders_json()));
    assert_eq!(resp.status_code(), "404");
    assert_eq!(resp.status_text(), "Not Found");
    assert_eq!(resp.body(), "<h1>Not Found</h1>");

    let other = HttpRequest::from("POST / HTTP/1.1\r\n\r\n");
    let resp2 = Router::route(&other, &demo_store(), None);
    assert_eq!(resp2.status_code(), "404");
}

#[test]
fn css_resource_gets_css_content_type() {
    let req = HttpRequest::from("GET /style.css HTTP/1.1\r\n\r\n");
    let resp = Router::route(&req, &demo_store(), None);
    assert_eq!(resp.status_code(), "200");
    assert_eq!(
        resp.headers.as_ref().unwrap().get("Content-Type"),
        Some(&"text/css".to_string())
    );
    assert_eq!(resp.body(), "body { margin: 0 }");
}

#[test]
fn js_resource_gets_javascript_content_type() {
    let req = HttpRequest::from("GET /app.js HTTP/1.1\r\n\r\n");
    let resp = Router::route(&req, &demo_store(), None);
    assert_eq!(resp.status_code(), "200");
    assert_eq!(
        resp.headers.as_ref().unwrap().get("Content-Type"),
        Some(&"text/javascript".to_string())
    );
}

#[test]
fn missing_resource_gets_not_found() {
    let req = HttpRequest::from("GET /missing.html HTTP/1.1\r\n\r\n");
    let resp = Router::route(&req, &demo_store(), None);
    assert_eq!(resp.status_code(), "404");
    assert_eq!(resp.body(), "<h1>Not Found</h1>");
}

#[test]
fn root_serves_the_index_page() {
    let req = HttpRequest::from("GET / HTTP/1.1\r\n\r\n");
    let resp = Router::route(&req, &demo_store(), None);
    assert_eq!(resp.status_code(), "200");
    assert_eq!(resp.body(), "<h1>Index</h1>");
    assert_eq!(
        resp.headers.as_ref().unwrap().get("Content-Type"),
        Some(&"text/html".to_string())
    );
}

#[test]
fn health_serves_the_health_page() {
    let req = HttpRequest::from("GET /health HTTP/1.1\r\n\r\n");
    let resp = Router::route(&req, &demo_store(), None);
    assert_eq!(resp.status_code(), "200");
    assert_eq!(resp.body(), "<h1>Healthy</h1>");
}

#[test]
fn api_path_without_orders_gets_not_found() {
    let req = HttpRequest::from("GET /api/shipping HTTP/1.1\r\n\r\n");
    let resp = Router::route(&req, &demo_store(), Some(demo_orders_json()));
    assert_eq!(resp.status_code(), "404");
}

#[test]
fn missing_order_data_surfaces_as_server_error() {
    let req = HttpRequest::from("GET /api/shipping/orders HTTP/1.1\r\n\r\n");
    let resp = Router::route(&req, &demo_store(), None);
    assert_eq!(resp.status_code(), "500");
    assert_eq!(resp.status_text(), "Internal Server Error");
    assert_eq!(resp.body(), "");
}

#[test]
fn routing_twice_gives_equal_responses() {
    let store = demo_store();
    let orders = demo_orders_json();
    for raw in [
        "GET / HTTP/1.1\r\n\r\n",
        "GET /style.css HTTP/1.1\r\n\r\n",
        "GET /api/shipping/orders HTTP/1.1\r\n\r\n",
        "POST /anything HTTP/1.1\r\n\r\n",
    ] {
        let req1 = HttpRequest::from(raw);
        let req2 = HttpRequest::from(raw);
        let resp1 = Router::route(&req1, &store, Some(orders.clone()));
        let resp2 = Router::route(&req2, &store, Some(orders.clone()));
        assert_eq!(resp1.status_code(), resp2.status_code());
        assert_eq!(resp1.status_text(), resp2.status_text());
        assert_eq!(resp1.body(), resp2.body());
        assert_eq!(resp1.headers, resp2.headers);
    }
}

#[test]
fn server_keeps_its_address() {
    let server = Server::new("127.0.0.1:3000");
    assert_eq!(server.server_addr(), "127.0.0.1:3000");
    assert_eq!(Server::default().server_addr(), "127.0.0.1:8000");
}
