use treq::cli_commands::OptionalRequestData;
use treq::cli_input::InputError;
use treq::json::JsonValue;
use treq::methods::METHODS;
use treq::output::{error_report, response_summary, timed_status_title, status_title, Line};
use treq::reports::{report_response, status_texts, Response};
use treq::request::{BodyPayload, PartialRequestData, RequestData};
use treq::url::{Url, UrlInfo};

fn s(x: &str) -> String {
    x.to_string()
}

#[test]
fn merge_keeps_saved_nested_fields() {
    let saved = RequestData::default()
        .with_method(METHODS::POST)
        .with_url("example.com/post")
        .with_body(r#"{"id": "1", "user": {"name": "John", "age": "30", "address": {"city": "Tokio"}}}"#);
    let input = PartialRequestData::default().with_body(r#"{"Hello": "World", "user": {"age": "31"}}"#);
    let merged = saved.merge(input);
    assert_eq!(
        merged,
        RequestData::default()
            .with_method(METHODS::POST)
            .with_url("example.com/post")
            .with_body(
                r#"{"Hello": "World", "id": "1", "user": {"name": "John", "age": "31", "address": {"city": "Tokio"}}}"#
            )
    );
}

#[test]
fn merge_replaces_field_and_keeps_others() {
    let saved = RequestData::default().with_body(r#"{"email": "john@gmail.com", "password": "123"}"#);
    let merged = saved.merge(PartialRequestData::default().with_body(r#"{"password": "456"}"#));
    assert_eq!(
        merged.body,
        BodyPayload::from_str(r#"{"email": "john@gmail.com", "password": "456"}"#)
    );
}

#[test]
fn merge_adds_query_params_to_saved_url() {
    let saved = RequestData::default().with_url("localhost:8000/get?key1=value1");
    let mut input = PartialRequestData::default();
    input.url = Some(Url::ValidatedUrl(UrlInfo {
        base: s(""),
        query_params: vec![(s("key2"), s("value2"))],
    }));
    let merged = saved.merge(input);
    assert_eq!(
        merged.url,
        Url::ValidatedUrl(UrlInfo {
            base: s("http://localhost:8000/get"),
            query_params: vec![(s("key1"), s("value1")), (s("key2"), s("value2"))],
        })
    );
    let moved = merged.merge(PartialRequestData::default().with_url("localhost:7777/patch?key3=value3"));
    assert_eq!(
        moved.url,
        Url::ValidatedUrl(UrlInfo {
            base: s("http://localhost:7777/patch"),
            query_params: vec![
                (s("key1"), s("value1")),
                (s("key2"), s("value2")),
                (s("key3"), s("value3")),
            ],
        })
    );
}

#[test]
fn merge_headers_method_and_nothing() {
    let saved = RequestData::default()
        .with_headers(vec![(s("A"), s("1")), (s("B"), s("2"))])
        .with_body("raw text");
    let mut input = PartialRequestData::default().with_method(METHODS::PATCH);
    input.headers = Some(vec![(s("B"), s("3")), (s("C"), s("4"))]);
    let merged = saved.duplicate().merge(input);
    assert_eq!(merged.method, METHODS::PATCH);
    assert_eq!(merged.headers, vec![(s("A"), s("1")), (s("B"), s("3")), (s("C"), s("4"))]);
    assert_eq!(merged.body, BodyPayload::Raw(s("raw text")));
    assert_eq!(saved.duplicate().merge(PartialRequestData::default()), saved);
    let json_on_raw = saved.merge(PartialRequestData::default().with_body(r#"{"a": true}"#));
    assert_eq!(
        json_on_raw.body,
        BodyPayload::Json(JsonValue::Object(vec![(s("a"), JsonValue::Bool(true))]))
    );
}

#[test]
fn optional_data_as_partial_data() {
    let data = OptionalRequestData {
        url: Some(s("url.com?a=1")),
        method: Some(METHODS::PUT),
        headers: Some(vec![(s("H"), s("v"))]),
        body: Some(s(r#"{"x": 1}"#)),
    };
    let mut expected = PartialRequestData::default()
        .with_url("url.com?a=1")
        .with_method(METHODS::PUT)
        .with_body(r#"{"x": 1}"#);
    expected.headers = Some(vec![(s("H"), s("v"))]);
    assert_eq!(data.to_partial_request_data(), expected);
    assert_eq!(OptionalRequestData::default().to_partial_request_data(), PartialRequestData::default());
    assert_eq!(
        OptionalRequestData::default().to_request_data().body,
        BodyPayload::Raw(String::new())
    );
}

#[test]
fn answer_is_reported() {
    let ok: Result<Response, String> = Ok(Response {
        status: 200,
        status_message: s("OK"),
        response_time_ms: 12,
        headers: vec![(s("Server"), s("x"))],
        body: s("hello"),
    });
    let texts = status_texts(&ok);
    assert_eq!(texts.status, "200");
    assert_eq!(texts.message, " (OK)");
    assert_eq!(texts.elapsed, " 12 MS ");
    let report = report_response(&ok, &texts, true);
    let headers = vec![(s("Server"), s("x"))];
    assert_eq!(report.metadata, response_summary(timed_status_title("200", " (OK)", " 12 MS "), &headers));
    assert_eq!(report.response, vec![Line::Text("hello")]);
    assert!(report.errors.is_empty());
    let untimed = report_response(&ok, &texts, false);
    assert_eq!(untimed.metadata, response_summary(status_title("200", " (OK)"), &headers));

    let failed: Result<Response, String> = Err(s("connection refused"));
    let texts = status_texts(&failed);
    assert_eq!(texts.status, "");
    let report = report_response(&failed, &texts, true);
    assert_eq!(report.errors, error_report("connection refused"));
    assert!(report.metadata.is_empty());
    assert!(report.response.is_empty());
}

#[test]
fn input_error_messages() {
    assert_eq!(InputError::RawBodyNotAnObject.message(), "raw body must be a valid JSON object");
    assert_eq!(InputError::NoInputGiven.message(), "No input given");
    assert_eq!(InputError::NoInputsGiven.message(), "No inputs given");
    assert_eq!(InputError::NoValidSubcommand.message(), "No valid subcommand");
}
