use treq::json::{is_json_object, parse_json, str_lt, JsonValue};
use treq::methods::{UnknownMethod, METHODS};
use treq::request::{BodyPayload, PartialRequestData};
use treq::request_items::{
    body_value, build_partial_request_data_with, classify_item, extract_nested_body_keys,
    header_value, is_body_item, non_string_body_value, parse_non_string_value_from_str_input,
    query_param_value, ItemError, ItemKind,
};
use treq::url::{expand_localhost_alias, parse_query, Url, UrlInfo};

fn s(x: &str) -> String {
    x.to_string()
}

#[test]
fn methods_round_trip() {
    for m in [
        METHODS::GET,
        METHODS::POST,
        METHODS::PUT,
        METHODS::PATCH,
        METHODS::DELETE,
        METHODS::HEAD,
        METHODS::OPTIONS,
    ] {
        assert_eq!(METHODS::from_str(m.as_str()), Ok(m));
    }
    assert_eq!(METHODS::from_str("get"), Err(UnknownMethod));
    assert_eq!(METHODS::POST.as_str(), "POST");
}

#[test]
fn url_with_query() {
    assert_eq!(
        Url::from_str("example.com/users/id?name=John&job=dev"),
        Url::ValidatedUrl(UrlInfo {
            base: s("http://example.com/users/id"),
            query_params: vec![(s("name"), s("John")), (s("job"), s("dev"))],
        })
    );
    assert_eq!(
        Url::from_str("https://google.com"),
        Url::ValidatedUrl(UrlInfo { base: s("https://google.com"), query_params: vec![] })
    );
    assert_eq!(Url::from_str("url,io"), Url::Raw(s("url,io")));
    assert_eq!(Url::from_str("localhost:80/users?a"), Url::ValidatedUrl(UrlInfo {
        base: s("http://localhost:80/users"),
        query_params: vec![(s("a"), s(""))],
    }));
}

#[test]
fn query_text() {
    assert_eq!(
        parse_query("a=1&&b=x=y&c"),
        vec![(s("a"), s("1")), (s("b"), s("x=y")), (s("c"), s(""))]
    );
    assert_eq!(parse_query(""), vec![]);
}

#[test]
fn localhost_alias() {
    assert_eq!(expand_localhost_alias(":8000"), "localhost:8000");
    assert_eq!(expand_localhost_alias(":80/users"), "localhost:80/users");
    assert_eq!(expand_localhost_alias("localhost:8000"), "localhost:8000");
    assert_eq!(expand_localhost_alias("example.com"), "example.com");
}

#[test]
fn item_kinds() {
    assert_eq!(classify_item("name==John"), Some((ItemKind::QueryParam, s("name"), s("John"))));
    assert_eq!(classify_item("age:=30"), Some((ItemKind::NonStringBody, s("age"), s("30"))));
    assert_eq!(classify_item("name=John"), Some((ItemKind::Body, s("name"), s("John"))));
    assert_eq!(
        classify_item("Content-Type:application/json"),
        Some((ItemKind::Header, s("Content-Type"), s("application/json")))
    );
    assert_eq!(classify_item("a=b:c"), Some((ItemKind::Body, s("a"), s("b:c"))));
    assert_eq!(classify_item("=x"), None);
    assert_eq!(classify_item("plain"), None);
    assert!(is_body_item("x=1"));
    assert!(!is_body_item("x==1"));
}

#[test]
fn nested_keys() {
    assert_eq!(
        extract_nested_body_keys("user[address][city]"),
        vec![s("user"), s("address"), s("city")]
    );
    assert_eq!(extract_nested_body_keys("plain"), vec![s("plain")]);
}

#[test]
fn non_string_values() {
    assert_eq!(parse_non_string_value_from_str_input("true"), Some(JsonValue::Bool(true)));
    assert_eq!(parse_non_string_value_from_str_input("'null'"), Some(JsonValue::Null));
    assert_eq!(parse_non_string_value_from_str_input("\"[]\""), Some(JsonValue::Array(vec![])));
    assert_eq!(parse_non_string_value_from_str_input("\"text\""), None);
    assert_eq!(parse_non_string_value_from_str_input("text"), None);
}

#[test]
fn json_parsing() {
    assert_eq!(
        parse_json(r#"{"b": 1, "a": [null, "x"]}"#),
        Some(JsonValue::Object(vec![
            (s("a"), JsonValue::Array(vec![JsonValue::Null, JsonValue::Str(s("x"))])),
            (s("b"), JsonValue::Number(s("1"))),
        ]))
    );
    assert_eq!(parse_json("-3.6"), Some(JsonValue::Number(s("-3.6"))));
    assert_eq!(parse_json(" null\n"), Some(JsonValue::Null));
    assert_eq!(parse_json("\ttrue "), Some(JsonValue::Bool(true)));
    assert_eq!(parse_json("[false, null]"), Some(JsonValue::Array(vec![JsonValue::Bool(false), JsonValue::Null])));
    assert_eq!(parse_json("nul"), None);
    assert_eq!(parse_json("true x"), None);
    assert_eq!(parse_json("{"), None);
    assert!(is_json_object("{}"));
    assert!(!is_json_object(r#"{"a":1e400}"#));
    let deep = format!("{}{}", "[".repeat(200), "]".repeat(200));
    assert_eq!(parse_json(&deep), None);
    assert_eq!(parse_json(""), None);
    assert_eq!(parse_json(r#"{"a":1e400}"#), None);
    assert!(!is_json_object("[]"));
    assert!(str_lt("abc", "abd"));
    assert!(str_lt("ab", "abc"));
    assert!(!str_lt("b", "a"));
}

#[test]
fn header_items_bind_headers() {
    let first = header_value("X-Token:1", &PartialRequestData::default()).unwrap().unwrap();
    let second = header_value("X-Token:2", &first).unwrap().unwrap();
    assert_eq!(second.headers, Some(vec![(s("X-Token"), s("2"))]));
    assert!(header_value("x=1", &first).is_none());
    let removed = header_value("X-Token:", &second).unwrap().unwrap();
    assert_eq!(removed.headers, Some(vec![]));
    let none_yet = header_value("connection:", &PartialRequestData::default()).unwrap().unwrap();
    assert_eq!(none_yet.headers, Some(vec![]));
}

#[test]
fn query_items() {
    let base = PartialRequestData::default().with_url("example.com?a=1");
    let out = query_param_value("b==2", &base).unwrap().unwrap();
    assert_eq!(
        out.url,
        Some(Url::ValidatedUrl(UrlInfo {
            base: s("http://example.com"),
            query_params: vec![(s("a"), s("1")), (s("b"), s("2"))],
        }))
    );
    let raw = PartialRequestData::default().with_url("url,io");
    assert_eq!(query_param_value("b==2", &raw), Some(Err(ItemError::CannotInsertQueryParam)));
    let none = query_param_value("b==2", &PartialRequestData::default()).unwrap().unwrap();
    assert_eq!(
        none.url,
        Some(Url::ValidatedUrl(UrlInfo { base: s(""), query_params: vec![(s("b"), s("2"))] }))
    );
}

#[test]
fn body_items_nested() {
    let out = body_value("user[name]=John", &PartialRequestData::default()).unwrap().unwrap();
    assert_eq!(out, PartialRequestData::default().with_body(r#"{"user": {"name": "John"}}"#));
    let replaced = body_value("user=x", &out).unwrap().unwrap();
    assert_eq!(replaced, PartialRequestData::default().with_body(r#"{"user": "x"}"#));
    assert_eq!(
        non_string_body_value("age:=abc", &PartialRequestData::default()),
        Some(Err(ItemError::CouldNotParseBodyValue))
    );
    assert!(body_value("age:=1", &PartialRequestData::default()).is_none());
}

#[test]
fn set_value_at_path() {
    let request = PartialRequestData::default().with_body("[1]");
    let out = build_partial_request_data_with(
        request,
        vec![s("a"), s("b")],
        JsonValue::Bool(false),
    );
    assert_eq!(
        out.body,
        Some(BodyPayload::Json(JsonValue::Object(vec![(
            s("a"),
            JsonValue::Object(vec![(s("b"), JsonValue::Bool(false))])
        )])))
    );
}

#[test]
fn scheme_defaults_to_http() {
    assert_eq!(Url::from_str("url.com"), Url::from_str("http://url.com"));
    assert_ne!(Url::from_str("url.com"), Url::from_str("https://url.com"));
}

#[test]
fn empty_body_is_empty_raw() {
    assert_eq!(BodyPayload::from_str(""), BodyPayload::Raw(String::new()));
}
