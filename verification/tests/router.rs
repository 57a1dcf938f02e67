use kode_bridge::http_types::Method;
use kode_bridge::router::{check_safe_path, match_pattern, Router};

#[test]
fn test_router_clone_independence() {
    let router1: Router<&'static str> = Router::new().get("/original", "original");

    let mut router2 = router1.clone();

    // Add a route to the cloned router.
    router2 = router2.post("/new", "new");

    // The first router does not have the new route.
    assert_eq!(router1.len(), 1);
    assert_eq!(router2.len(), 2);

    assert!(router1.find_route(&Method::get(), "/original").is_some());
    assert!(router1.find_route(&Method::post(), "/new").is_none());

    assert!(router2.find_route(&Method::get(), "/original").is_some());
    assert!(router2.find_route(&Method::post(), "/new").is_some());
}

#[test]
fn test_router_clone_with_multiple_methods() {
    let router: Router<&'static str> = Router::new()
        .get("/users", "GET users")
        .post("/users", "POST users")
        .put("/users/123", "PUT user")
        .delete("/users/123", "DELETE user");

    let cloned_router = router.clone();

    assert_eq!(router.len(), 4);
    assert_eq!(cloned_router.len(), 4);

    let methods_and_paths = [
        (Method::get(), "/users"),
        (Method::post(), "/users"),
        (Method::put(), "/users/123"),
        (Method::delete(), "/users/123"),
    ];

    for (method, path) in &methods_and_paths {
        assert!(router.find_route(method, path).is_some());
        assert!(cloned_router.find_route(method, path).is_some());
    }
}

fn test_router() -> Router<&'static str> {
    Router::new()
        .get("/ready", "ready")
        .get("/method", "get method")
        .post("/method", "post method")
        .put("/method", "put method")
        .delete("/method", "delete method")
        .post("/echo", "echo")
}

#[test]
fn router_accepts_all_core_methods() {
    let router = test_router();
    for method in [Method::get(), Method::post(), Method::put(), Method::delete()] {
        assert!(router.find_handler_and_params(&method, "/method").is_some());
    }
}

#[test]
fn routes_are_matched_by_method_and_path() {
    let router = test_router();
    assert_eq!(router.find_route(&Method::get(), "/ready"), Some(&"ready"));
    assert_eq!(router.find_route(&Method::post(), "/method"), Some(&"post method"));
    assert_eq!(router.find_route(&Method::post(), "/ready"), None);
    assert_eq!(router.find_route(&Method::get(), "/missing"), None);
    assert_eq!(router.find_route(&Method::patch(), "/method"), None);
}

#[test]
fn the_first_matching_route_wins() {
    let router: Router<u32> = Router::new().get("/items/:id", 1).get("/items/42", 2);
    assert_eq!(router.find_route(&Method::get(), "/items/42"), Some(&1));
    let router: Router<u32> = Router::new().get("/items/42", 2).get("/items/:id", 1);
    assert_eq!(router.find_route(&Method::get(), "/items/42"), Some(&2));
    assert_eq!(router.find_route(&Method::get(), "/items/7"), Some(&1));
}

#[test]
fn path_parameters_are_captured() {
    let router: Router<&'static str> = Router::new().put("/config/:section/:key", "config");
    let (handler, params) = router
        .find_handler_and_params(&Method::put(), "/config/dns/server")
        .expect("route");
    assert_eq!(*handler, "config");
    assert_eq!(
        params,
        vec![
            ("section".to_string(), "dns".to_string()),
            ("key".to_string(), "server".to_string()),
        ]
    );
    // A parameter never matches an empty segment.
    assert!(router.find_handler_and_params(&Method::put(), "/config//server").is_none());
    // Segment counts must agree.
    assert!(router.find_handler_and_params(&Method::put(), "/config/dns").is_none());
}

#[test]
fn match_pattern_literals_and_parameters() {
    assert_eq!(match_pattern("/a/b", "/a/b"), Some(vec![]));
    assert_eq!(match_pattern("/a/b", "/a/c"), None);
    assert_eq!(
        match_pattern("/a/:x", "/a/value"),
        Some(vec![("x".to_string(), "value".to_string())])
    );
    assert_eq!(match_pattern("/a/:x", "/a/value/extra"), None);
}

#[test]
fn unsafe_paths_are_rejected_before_dispatch() {
    let router: Router<u8> = Router::new().get("/:any", 1);
    assert!(router.is_safe_path("/ok"));
    assert!(router.find_route(&Method::get(), "/ok").is_some());
    for bad in ["/../etc", "/a\\b", "relative", "", "/a\u{1}b", "/a\u{0}b", "/a\u{7f}b", "/a..b"] {
        assert!(!check_safe_path(bad), "{bad:?} should be rejected");
        assert!(router.find_route(&Method::get(), bad).is_none());
    }
    // Tabs and line breaks are control characters too.
    for bad in ["/a\tb", "/a\nb", "/a\rb"] {
        assert!(!check_safe_path(bad), "{bad:?} should be rejected");
    }
    // At most 2048 bytes.
    let long_ok = format!("/{}", "a".repeat(2047));
    let too_long = format!("/{}", "a".repeat(2048));
    assert!(check_safe_path(&long_ok));
    assert!(!check_safe_path(&too_long));
    // Multi-byte characters count by their UTF-8 length.
    let wide = format!("/{}", "é".repeat(1024));
    assert!(!check_safe_path(&wide));
}

#[test]
fn a_registered_route_serves_its_own_path() {
    let router: Router<&'static str> = Router::new().get("/a", "a").post("/b/:id", "b");
    assert_eq!(router.find_route(&Method::get(), "/a"), Some(&"a"));
    // The pattern text itself matches, capturing the parameter name's text.
    let (h, params) = router.find_handler_and_params(&Method::post(), "/b/:id").expect("route");
    assert_eq!(*h, "b");
    assert_eq!(params, vec![("id".to_string(), ":id".to_string())]);
}
