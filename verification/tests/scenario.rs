use greetings::routes;
use greetings::routes::Route;
use greetings::store::GreetingStore;

/// The full request sequence against one store, dispatched through the
/// routing table like a server would.
#[test]
fn end_to_end_crud() {
    let mut store = GreetingStore::new();

    let route = routes::match_route("POST", "/v1/greeting/new");
    assert!(matches!(route, Route::CreateGreeting));
    let response = routes::new(&mut store, "{\"message\":\"Cargo testing!\"}");
    assert_eq!(response.status, 200);
    assert_eq!(response.body, "{\"id\":1,\"message\":\"Cargo testing!\"}");

    let route = routes::match_route("GET", "/v1/greeting/1");
    let id = match route {
        Route::GetGreeting(id) => id,
        _ => panic!("expected the get route"),
    };
    let response = routes::get(&store, &id);
    assert_eq!(response.status, 200);
    assert_eq!(response.body, "{\"id\":1,\"message\":\"Cargo testing!\"}");

    let route = routes::match_route("PUT", "/v1/greeting/1");
    let id = match route {
        Route::UpdateGreeting(id) => id,
        _ => panic!("expected the update route"),
    };
    let response = routes::update(&mut store, &id, "{\"message\":\"Updated greeting\"}");
    assert_eq!(response.status, 200);
    assert_eq!(response.body, "{\"id\":1,\"message\":\"Updated greeting\"}");

    let response = routes::get(&store, "1");
    assert_eq!(response.status, 200);
    assert_eq!(response.body, "{\"id\":1,\"message\":\"Updated greeting\"}");

    let response = routes::get(&store, "999");
    assert_eq!(response.status, 404);
    assert_eq!(
        response.body,
        "{\"status\":\"404\",\"reason\":\"Resource was not found.\"}"
    );

    let response = routes::update(&mut store, "999", "{\"message\":\"x\"}");
    assert_eq!(response.status, 404);
    assert_eq!(
        response.body,
        "{\"status\":\"404\",\"reason\":\"Resource was not found.\"}"
    );

    let response = routes::get(&store, "invalid");
    assert_eq!(response.status, 404);

    let route = routes::match_route("GET", "/");
    assert!(matches!(route, Route::Root));
    let response = routes::root();
    assert_eq!(response.status, 303);
    assert_eq!(response.location.as_deref(), Some("/v1/greeting"));
}

#[test]
fn routing_table() {
    assert!(matches!(routes::match_route("GET", "/"), Route::Root));
    assert!(matches!(routes::match_route("GET", "/version"), Route::VersionInfo));
    assert!(matches!(routes::match_route("GET", "/healthz"), Route::Healthz));
    assert!(matches!(routes::match_route("GET", "/v1/greeting"), Route::ListGreetings));
    assert!(matches!(routes::match_route("GET", "/v1/envinfo"), Route::EnvInfo));
    assert!(matches!(routes::match_route("GET", "/v1/hostinfo"), Route::HostInfo));
    assert!(matches!(routes::match_route("POST", "/v1/greeting/new"), Route::CreateGreeting));

    match routes::match_route("GET", "/v1/greeting/42") {
        Route::GetGreeting(id) => assert_eq!(id, "42"),
        _ => panic!("expected the get route"),
    }
    match routes::match_route("GET", "/v1/greeting/new") {
        Route::GetGreeting(id) => assert_eq!(id, "new"),
        _ => panic!("expected the get route"),
    }
    match routes::match_route("PUT", "/v1/greeting/7") {
        Route::UpdateGreeting(id) => assert_eq!(id, "7"),
        _ => panic!("expected the update route"),
    }

    assert!(matches!(routes::match_route("GET", "/v1/greeting/a/b"), Route::NoRoute));
    assert!(matches!(routes::match_route("GET", "/v1/greeting/"), Route::NoRoute));
    assert!(matches!(routes::match_route("GET", "/nope"), Route::NoRoute));
    assert!(matches!(routes::match_route("POST", "/v1/greeting"), Route::NoRoute));
    assert!(matches!(routes::match_route("PUT", "/v1/greeting"), Route::NoRoute));
    assert!(matches!(routes::match_route("DELETE", "/v1/greeting/1"), Route::NoRoute));
}

#[test]
fn health_and_catcher_bodies() {
    let response = routes::health();
    assert_eq!(response.status, 200);
    assert_eq!(response.content_type.as_deref(), Some("application/json"));
    assert_eq!(response.body, "{\"status\":\"200\",\"message\":\"OK\"}");

    let response = routes::not_found();
    assert_eq!(response.status, 404);
    assert_eq!(response.content_type.as_deref(), Some("application/json"));
    assert_eq!(
        response.body,
        "{\"status\":\"404\",\"reason\":\"Resource was not found.\"}"
    );
}

#[test]
fn peripheral_bodies() {
    let response = routes::hostinfo("myhost");
    assert_eq!(response.body, "{\"hostname\":\"myhost\"}");

    let response = routes::version("0.1.0");
    assert_eq!(response.body, "{\"version\":\"0.1.0\"}");

    let evar = vec![
        ("A".to_string(), "1".to_string()),
        ("B".to_string(), "2".to_string()),
    ];
    let response = routes::envinfo(&evar);
    assert_eq!(response.body, "{\"evar\":{\"A\":\"1\",\"B\":\"2\"}}");

    let none: Vec<(String, String)> = Vec::new();
    let response = routes::envinfo(&none);
    assert_eq!(response.body, "{\"evar\":{}}");
}
