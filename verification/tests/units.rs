use greetings::json::greeting_to_json;
use greetings::parse::{parse_id, parse_message};
use greetings::routes;
use greetings::store::{Greeting, GreetingStore};

#[test]
fn create_ids_are_sequential() {
    let mut store = GreetingStore::new();
    let a = store.create("one".to_string());
    let b = store.create("two".to_string());
    let c = store.create("three".to_string());
    assert_eq!(a.id, Some(1));
    assert_eq!(b.id, Some(2));
    assert_eq!(c.id, Some(3));
}

#[test]
fn get_reads_back_until_update() {
    let mut store = GreetingStore::new();
    let g = store.create("hello".to_string());
    let id = g.id.unwrap();

    let read = store.get(id).unwrap();
    assert_eq!(read.message, "hello");

    // Creates and updates of other ids leave it alone.
    store.create("other".to_string());
    let other = store.create("yet another".to_string());
    store.update(other.id.unwrap(), "changed".to_string()).unwrap();
    let read = store.get(id).unwrap();
    assert_eq!(read.message, "hello");

    // An update of the id itself is what changes it.
    store.update(id, "replaced".to_string()).unwrap();
    let read = store.get(id).unwrap();
    assert_eq!(read.message, "replaced");
}

#[test]
fn update_of_absent_id_is_a_no_op() {
    let mut store = GreetingStore::new();
    store.create("only".to_string());

    let r = store.update(5, "sneaky".to_string());
    assert!(r.is_none());
    assert!(store.get(5).is_none());
    assert_eq!(store.len(), 1);
    assert_eq!(store.get(1).unwrap().message, "only");
}

#[test]
fn list_holds_each_created_record_once() {
    let mut store = GreetingStore::new();
    assert_eq!(store.list().len(), 0);

    store.create("a".to_string());
    store.create("b".to_string());
    store.create("c".to_string());

    let all = store.list();
    assert_eq!(all.len(), 3);
    let expected = ["a", "b", "c"];
    for (i, g) in all.iter().enumerate() {
        assert_eq!(g.id, Some(i + 1));
        assert_eq!(g.message, expected[i]);
    }
}

#[test]
fn create_get_round_trip() {
    let mut store = GreetingStore::new();
    let created = store.create("hi".to_string());
    let k = created.id.unwrap();
    let read = store.get(k).unwrap();
    assert_eq!(read.id, Some(k));
    assert_eq!(read.message, "hi");
}

#[test]
fn id_parsing() {
    assert_eq!(parse_id("37"), Some(37));
    assert_eq!(parse_id("1"), Some(1));
    assert_eq!(parse_id("0"), Some(0));
    assert_eq!(parse_id("037"), Some(37));
    assert_eq!(parse_id("18446744073709551615"), Some(usize::MAX));
    assert_eq!(parse_id("18446744073709551616"), None);
    assert_eq!(parse_id("99999999999999999999999999"), None);
    assert_eq!(parse_id("invalid"), None);
    assert_eq!(parse_id(""), None);
    assert_eq!(parse_id("-1"), None);
    assert_eq!(parse_id("+5"), Some(5));
    assert_eq!(parse_id("+0"), Some(0));
    assert_eq!(parse_id("+"), None);
    assert_eq!(parse_id("++5"), None);
    assert_eq!(parse_id("1 "), None);
    assert_eq!(parse_id("1.5"), None);
}

#[test]
fn body_parsing() {
    let m = parse_message(r#"{ "message": "hi" }"#).unwrap();
    assert_eq!(m.message, "hi");

    let m = parse_message("{\"message\":\"hi\"}").unwrap();
    assert_eq!(m.message, "hi");

    let m = parse_message(" \t\r\n{ \"message\" : \"spaced out\" } ").unwrap();
    assert_eq!(m.message, "spaced out");

    let m = parse_message(r#"{"message":""}"#).unwrap();
    assert_eq!(m.message, "");

    let m = parse_message(r#"{"message":"a\"b\\c\nd\te\/f"}"#).unwrap();
    assert_eq!(m.message, "a\"b\\c\nd\te/f");

    let m = parse_message(r#"{"message":"\u0041"}"#).unwrap();
    assert_eq!(m.message, "A");

    let m = parse_message(r#"{"message":"\u00e9 \uD83D\uDE00"}"#).unwrap();
    assert_eq!(m.message, "\u{e9} \u{1F600}");

    assert!(parse_message(r#"{"message":"\uD800"}"#).is_none());
    assert!(parse_message(r#"{"message":"\uDC00 alone"}"#).is_none());
    assert!(parse_message(r#"{"message":"\u12"}"#).is_none());

    // Unknown members are stepped over, wherever they stand.
    let m = parse_message(r#"{"id":null,"message":"hi"}"#).unwrap();
    assert_eq!(m.message, "hi");
    let m = parse_message(r#"{"message":"hi","count":-1.5e+10,"ok":true}"#).unwrap();
    assert_eq!(m.message, "hi");
    let m = parse_message(r#"{"extra":{"a":[1,2,"x",{}],"b":false},"message":"hi"}"#).unwrap();
    assert_eq!(m.message, "hi");

    // The message member must appear exactly once and hold a string.
    assert!(parse_message(r#"{"message":"a","message":"b"}"#).is_none());
    assert!(parse_message(r#"{"other":1}"#).is_none());
    assert!(parse_message(r#"{"message":["hi"]}"#).is_none());
    assert!(parse_message(r#"{"x":01,"message":"hi"}"#).is_none());
    assert!(parse_message(r#"{"message":"hi",}"#).is_none());

    assert!(parse_message("").is_none());
    assert!(parse_message("{}").is_none());
    assert!(parse_message(r#"{"msg":"hi"}"#).is_none());
    assert!(parse_message(r#"{"message":42}"#).is_none());
    assert!(parse_message(r#"{"message":"hi"} trailing"#).is_none());
    assert!(parse_message(r#"{"message":"hi""#).is_none());
    assert!(parse_message(r#"{"message":"bad \q escape"}"#).is_none());
    assert!(parse_message("{\"message\":\"ctl \u{1} char\"}").is_none());
    assert!(parse_message(r#"["message","hi"]"#).is_none());
}

#[test]
fn greeting_encoding() {
    let g = Greeting { id: Some(12), message: "plain".to_string() };
    assert_eq!(greeting_to_json(&g), "{\"id\":12,\"message\":\"plain\"}");

    let g = Greeting { id: None, message: "no id".to_string() };
    assert_eq!(greeting_to_json(&g), "{\"id\":null,\"message\":\"no id\"}");

    let g = Greeting { id: Some(1), message: "q\" b\\ n\n t\t c\u{1}".to_string() };
    assert_eq!(
        greeting_to_json(&g),
        "{\"id\":1,\"message\":\"q\\\" b\\\\ n\\n t\\t c\\u0001\"}"
    );
}

#[test]
fn list_encoding() {
    let mut store = GreetingStore::new();
    store.create("a".to_string());
    store.create("b".to_string());
    let response = routes::list(&store);
    assert_eq!(
        response.body,
        "[{\"id\":1,\"message\":\"a\"},{\"id\":2,\"message\":\"b\"}]"
    );

    let empty = GreetingStore::new();
    let response = routes::list(&empty);
    assert_eq!(response.body, "[]");
}

#[test]
fn hostname_trimming() {
    assert_eq!(routes::trim_hostname(" myhost\n"), "myhost");
    assert_eq!(routes::trim_hostname("\n\n a b \n"), "a b");
    assert_eq!(routes::trim_hostname("bare"), "bare");
    assert_eq!(routes::trim_hostname(""), "");
    assert_eq!(routes::trim_hostname("  \n "), "");
    assert_eq!(routes::trim_hostname("\ttab\t"), "tab");
    assert_eq!(routes::trim_hostname(" \r\nname\r\n"), "name");
    assert_eq!(routes::trim_hostname("two words\n"), "two words");
}

#[test]
fn create_route_rejects_bad_body_without_touching_store() {
    let mut store = GreetingStore::new();
    let response = routes::new(&mut store, "not json");
    assert_eq!(response.status, 400);
    assert_eq!(store.len(), 0);

    let response = routes::new(&mut store, r#"{"message":"kept"}"#);
    assert_eq!(response.status, 200);
    assert_eq!(store.len(), 1);

    let response = routes::update(&mut store, "1", "not json");
    assert_eq!(response.status, 400);
    assert_eq!(store.get(1).unwrap().message, "kept");
}
