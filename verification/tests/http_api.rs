use greetings::routes;
use greetings::store::GreetingStore;

#[test]
fn root_redirect() {
    // Check that / redirects correctly
    let response = routes::root();
    assert_eq!(response.status, 303);
    assert_eq!(response.location.as_deref(), Some("/v1/greeting"));
}

#[test]
fn empty_greeting() {
    let store = GreetingStore::new();

    // Check that we get an empty json array.
    let response = routes::list(&store);
    let _body = response.body.clone();
    assert_eq!(response.status, 200);
    assert_eq!(response.content_type.as_deref(), Some("application/json"));
    assert!(_body.contains("[]"));
}

#[test]
fn bad_get_put() {
    let mut store = GreetingStore::new();

    // Try to get a greeting that doesn't exist.
    let response = routes::get(&store, "37");
    let _body = response.body.clone();
    assert_eq!(response.status, 404);
    assert_eq!(response.content_type.as_deref(), Some("application/json"));
    assert!(_body.contains("Resource was not found."));

    // Try to get a greeting with an invalid ID.
    let response = routes::get(&store, "invalid");
    let _body = response.body.clone();
    assert_eq!(response.status, 404);
    assert_eq!(response.content_type.as_deref(), Some("application/json"));
    assert!(_body.contains("Resource was not found."));

    // Try to put a greeting without a proper body.
    let response = routes::update(&mut store, "33", "");
    assert_eq!(response.status, 400);

    // Try to put a greeting for an ID that doesn't exist.
    let response = routes::update(&mut store, "33", r#"{ "message": "Cargo testing!!" }"#);
    assert_eq!(response.status, 404);
    assert_eq!(response.content_type.as_deref(), Some("application/json"));
}

#[test]
fn post_get_put_get() {
    let mut store = GreetingStore::new();

    // Check that a greeting with ID 1 doesn't exist.
    let response = routes::get(&store, "1");
    assert_eq!(response.status, 404);
    assert_eq!(response.content_type.as_deref(), Some("application/json"));

    // Add a new greeting
    let response = routes::new(&mut store, r#"{ "message": "Cargo testing!"}"#);
    assert_eq!(response.status, 200);
    assert_eq!(response.content_type.as_deref(), Some("application/json"));
    assert_eq!(response.body, "{\"id\":1,\"message\":\"Cargo testing!\"}");

    // Check that the greeting exists with the correct content.
    let response = routes::get(&store, "1");
    assert_eq!(response.status, 200);
    assert_eq!(response.content_type.as_deref(), Some("application/json"));
    assert_eq!(response.body, "{\"id\":1,\"message\":\"Cargo testing!\"}");

    // Change the greeting content
    let response = routes::update(&mut store, "1", r#"{ "message": "Updated greeting" }"#);
    assert_eq!(response.status, 200);
    assert_eq!(response.content_type.as_deref(), Some("application/json"));
    assert_eq!(response.body, "{\"id\":1,\"message\":\"Updated greeting\"}");

    // Check that the greeting exists with the updated content.
    let response = routes::get(&store, "1");
    let _body = response.body.clone();
    assert_eq!(response.status, 200);
    assert_eq!(response.content_type.as_deref(), Some("application/json"));
    assert_eq!(response.body, "{\"id\":1,\"message\":\"Updated greeting\"}");
    assert!(_body.contains("Updated greeting"));
}

#[test]
fn get_envinfo() {
    let evar = vec![
        ("PATH".to_string(), "/usr/bin".to_string()),
        ("HOME".to_string(), "/root".to_string()),
    ];

    // Check that we get a non empty json response
    let response = routes::envinfo(&evar);
    let _body = response.body.clone();
    assert_eq!(response.status, 200);
    assert_eq!(response.content_type.as_deref(), Some("application/json"));
    assert!(!_body.is_empty());
}

#[test]
fn get_hostinfo() {
    // Check that we get a non empty json response
    let response = routes::hostinfo("example-host");
    let _body = response.body.clone();
    assert_eq!(response.status, 200);
    assert_eq!(response.content_type.as_deref(), Some("application/json"));
    assert!(!_body.is_empty());
}
