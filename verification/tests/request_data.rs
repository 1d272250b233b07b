use treq::request::{PartialRequestData, RequestData};
use treq::request_items::{body_value, non_string_body_value};

#[test]
fn test_non_string_body_value_with_string_only() {
    let cases = [
        r#"name:="John""#,
        r#"name:='"John"'"#,
        r#"name:=""John""#,
        r#"name:=""true"""#,
        r#"name:='"true"'"#,
    ];

    for case in cases {
        let base_request = PartialRequestData::default();
        let output = non_string_body_value(case, &base_request);
        assert!(matches!(output, Some(Err(_))));
    }
}

#[test]
fn test_non_string_body_value_nested() {
    let cases = [
        (
            r#"hobbies:='["http", "pies"]'"#,
            r#"{ "hobbies": ["http", "pies"] }"#,
        ),
        (
            r#"hobbies:=["http", "pies"]"#,
            r#"{ "hobbies": ["http", "pies"] }"#,
        ),
        (
            r#"favorite:={"tool": "HTTPie"}"#,
            r#"{ "favorite": { "tool": "HTTPie"} }"#,
        ),
        (
            r#"favorite:='{"tool": "HTTPie"}'"#,
            r#"{ "favorite": { "tool": "HTTPie"} }"#,
        ),
        (
            r#"complex:=[null,{},["a", false], true]"#,
            r#"{ "complex": [null, {}, ["a", false], true] }"#,
        ),
        (
            r#"complex:='{"tool": {"all":[true, 29, {"name": ["Mary", "John"]}]}}'"#,
            r#"{ "complex": {"tool":  {"all":[true, 29, {"name": ["Mary", "John"]}]}} }"#,
        ),
    ];

    for (input, output) in cases {
        let base_request = PartialRequestData::default();

        let expected_result = PartialRequestData::default().with_body(&output.to_string());

        assert_eq!(
            expected_result,
            non_string_body_value(input, &base_request)
                .unwrap()
                .unwrap(),
        );
    }
}

#[test]
fn test_non_string_body_value_basic() {
    let cases = [
        (r#"favorite:={}"#, r#"{ "favorite": {} }"#),
        (r#"favorite:="{}""#, r#"{ "favorite": {} }"#),
        (r#"favorite:='{}'"#, r#"{ "favorite": {} }"#),
        (r#"hobbies:=[]"#, r#"{ "hobbies": [] }"#),
        (r#"hobbies:="[]""#, r#"{ "hobbies": [] }"#),
        (r#"hobbies:='[]'"#, r#"{ "hobbies": [] }"#),
        (r#"temperature:=-28.0"#, r#"{ "temperature": -28.0 }"#),
        (r#"temperature:="27.5""#, r#"{ "temperature": 27.5 }"#),
        (r#"temperature:='-3.6'"#, r#"{ "temperature": -3.6 }"#),
        (r#"married:=true"#, r#"{ "married": true }"#),
        (r#"married:="false""#, r#"{ "married": false }"#),
        (r#"married:='true'"#, r#"{ "married": true }"#),
        (r#"worked:=null"#, r#"{ "worked": null }"#),
        (r#"worked:="null""#, r#"{ "worked": null }"#),
        (r#"worked:='null'"#, r#"{ "worked": null }"#),
    ];

    for (input, output) in cases {
        let base_request = PartialRequestData::default();

        let expected_result = PartialRequestData::default().with_body(&output.to_string());

        assert_eq!(
            expected_result,
            non_string_body_value(input, &base_request)
                .unwrap()
                .unwrap(),
        );
    }
}

#[test]
fn test_body_value_append() {
    let input = "password=123";
    let base_request =
        PartialRequestData::default().with_body(r#"{ "email": "johndoe@gmail.com" }"#);

    let expected_request = PartialRequestData::default()
        .with_body(r#"{ "email": "johndoe@gmail.com", "password": "123" }"#);

    assert_eq!(
        expected_request,
        body_value(input, &base_request).unwrap().unwrap(),
    );
}

#[test]
fn test_body_value_overwrite() {
    let input = "password=123456";
    let base_request = PartialRequestData::default()
        .with_body(r#"{ "email": "johndoe@gmail.com", "password": "123" }"#);

    let expected_request = PartialRequestData::default()
        .with_body(r#"{ "email": "johndoe@gmail.com", "password": "123456" }"#);

    assert_eq!(
        expected_request,
        body_value(input, &base_request).unwrap().unwrap(),
    );
}

#[test]
fn test_body_value_with_base_body_as_raw() {
    let input = "password=123";

    let base_requests_body = ["anything", r#"["element1", "element2"]"#, "10", ""];
    let base_requests =
        base_requests_body.map(|body| PartialRequestData::default().with_body(&body.to_string()));

    for request in base_requests {
        let expected_request = PartialRequestData::default().with_body(r#"{ "password": "123" }"#);

        assert_eq!(
            expected_request,
            body_value(input, &request).unwrap().unwrap(),
        );
    }
}

#[test]
fn test_body_value_with_base_body_none() {
    let input = "password=123";
    let base_request = PartialRequestData::default();

    let expected_request = PartialRequestData::default().with_body(r#"{ "password": "123" }"#);
    assert_eq!(
        expected_request,
        body_value(input, &base_request).unwrap().unwrap(),
    );
}

#[test]
fn with_headers_names_each_header_once() {
    let req = RequestData::default().with_headers(vec![
        ("A".to_string(), "1".to_string()),
        ("B".to_string(), "2".to_string()),
        ("A".to_string(), "3".to_string()),
    ]);
    assert_eq!(
        req.headers,
        vec![("A".to_string(), "3".to_string()), ("B".to_string(), "2".to_string())]
    );
}
