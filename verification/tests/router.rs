use async_chat::router::{ClosureRouter, FnPointerRouter, Request, Response, ERROR_CODE};
use std::collections::HashMap;

fn request(url: &str) -> Request {
    Request {
        method: "GET".to_string(),
        url: url.to_string(),
        headers: HashMap::new(),
        body: Vec::new(),
    }
}

fn answer(code: u32, body: &[u8]) -> Response {
    Response {
        code,
        headers: HashMap::new(),
        body: body.to_vec(),
    }
}

fn ok(_: &Request) -> Response {
    answer(200, b"ok")
}

fn teapot(_: &Request) -> Response {
    answer(418, b"teapot")
}

#[test]
fn error_response() {
    let response = Response::error();
    assert!(response.is_error());
    assert_eq!(response.code, 500);
    assert_eq!(ERROR_CODE, 500);
    assert!(response.headers.is_empty());
    assert!(response.body.is_empty());
    assert!(!answer(200, b"").is_error());
}

#[test]
fn fn_pointer_router_routes_by_url() {
    let router = FnPointerRouter::<fn(&Request) -> Response>::new()
        .add("/", ok)
        .add("/tea", teapot);
    assert_eq!(router.route(&request("/")).code, 200);
    assert_eq!(router.route(&request("/tea")).body, b"teapot");
    assert!(router.route(&request("/coffee")).is_error());
    assert!(router.route(&request("")).is_error());
}

#[test]
fn fn_pointer_router_replaces_a_route() {
    let router = FnPointerRouter::<fn(&Request) -> Response>::new()
        .add("/", ok)
        .add("/", teapot);
    assert_eq!(router.route(&request("/")).code, 418);
}

#[test]
fn closure_router_routes_by_url() {
    let greeting = "hello".to_string();
    let router = ClosureRouter::<Box<dyn Fn(&Request) -> Response>>::new()
        .add("/", Box::new(move |_| answer(200, greeting.as_bytes())))
        .add("/echo", Box::new(|req| answer(200, req.url.as_bytes())));
    assert_eq!(router.route(&request("/")).body, b"hello");
    assert_eq!(router.route(&request("/echo")).body, b"/echo");
    assert!(router.route(&request("/none")).is_error());
}

#[test]
fn empty_router_answers_with_the_error() {
    let router = ClosureRouter::<Box<dyn Fn(&Request) -> Response>>::new();
    assert_eq!(router.route(&request("/")).code, 500);
}
