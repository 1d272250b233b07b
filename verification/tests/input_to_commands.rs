use treq::cli_input::{
    CliCommandChoice, CliInput, InputError, RequestBuildingOptions, SavingOptions, ViewOptions,
};
use treq::commands::ViewCommandChoice;
use treq::input_to_commands::map_input_to_commands;
use treq::methods::METHODS;
use treq::request::{PartialRequestData, RequestData};

fn input(choice: CliCommandChoice, items: &[&str]) -> CliInput {
    CliInput {
        choice,
        request_input: RequestBuildingOptions {
            request_items: items.iter().map(|s| s.to_string()).collect(),
            raw_body: None,
            url_manual: None,
            method_manual: None,
        },
        save_options: SavingOptions { save_as: None },
        view_options: ViewOptions { print_body_only: false, suppress_output: false },
    }
}

fn default_request(url: &str, items: &[&str]) -> CliInput {
    input(CliCommandChoice::DefaultBasicRequest { url: url.to_string() }, items)
}

fn view() -> ViewOptions {
    ViewOptions { print_body_only: false, suppress_output: false }
}

#[test]
fn request_without_method_is_get() {
    let commands = map_input_to_commands(default_request("url.com", &[])).unwrap();
    assert_eq!(
        commands,
        vec![ViewCommandChoice::SubmitRequest {
            request: RequestData::default().with_method(METHODS::GET).with_url("url.com"),
            view_options: view(),
        }]
    );
}

#[test]
fn request_without_method_with_body_item_is_post() {
    let commands = map_input_to_commands(default_request("url.com", &["Hello=World"])).unwrap();
    assert_eq!(
        commands,
        vec![ViewCommandChoice::SubmitRequest {
            request: RequestData::default()
                .with_method(METHODS::POST)
                .with_url("url.com")
                .with_body(r#"{"Hello":"World"}"#),
            view_options: view(),
        }]
    );
}

#[test]
fn header_item_sets_header() {
    let choice = CliCommandChoice::BasicRequest {
        method: METHODS::POST,
        url: "http://httpbin.org/something".to_string(),
    };
    let commands = map_input_to_commands(input(choice, &["Auth:Value"])).unwrap();
    assert_eq!(
        commands,
        vec![ViewCommandChoice::SubmitRequest {
            request: RequestData::default()
                .with_method(METHODS::POST)
                .with_url("http://httpbin.org/something")
                .with_headers(vec![("Auth".to_string(), "Value".to_string())]),
            view_options: view(),
        }]
    );
}

#[test]
fn raw_body_that_is_no_object_with_body_items_is_refused() {
    let mut i = default_request("url.com", &["Hello=World"]);
    i.request_input.raw_body = Some("[1, 2]".to_string());
    assert_eq!(map_input_to_commands(i), Err(InputError::RawBodyNotAnObject));
}

#[test]
fn raw_body_object_takes_body_items() {
    let mut i = input(
        CliCommandChoice::BasicRequest { method: METHODS::POST, url: "url.com".to_string() },
        &["job=dev"],
    );
    i.request_input.raw_body = Some(r#"{ "friends": ["John", "Jane"] }"#.to_string());
    let commands = map_input_to_commands(i).unwrap();
    assert_eq!(
        commands,
        vec![ViewCommandChoice::SubmitRequest {
            request: RequestData::default()
                .with_method(METHODS::POST)
                .with_url("url.com")
                .with_body(r#"{ "friends": ["John", "Jane"], "job": "dev" }"#),
            view_options: view(),
        }]
    );
}

#[test]
fn localhost_alias_is_expanded() {
    let short = map_input_to_commands(default_request(":8000/users", &[])).unwrap();
    let long = map_input_to_commands(default_request("localhost:8000/users", &[])).unwrap();
    assert_eq!(short, long);
    assert_eq!(
        short,
        vec![ViewCommandChoice::SubmitRequest {
            request: RequestData::default().with_url("localhost:8000/users"),
            view_options: view(),
        }]
    );
}

#[test]
fn localhost_alias_in_url_option() {
    let mut short = input(
        CliCommandChoice::Run { request_name: "my-request".to_string(), save: false },
        &[],
    );
    short.request_input.url_manual = Some(":9000".to_string());
    let mut long = input(
        CliCommandChoice::Run { request_name: "my-request".to_string(), save: false },
        &[],
    );
    long.request_input.url_manual = Some("localhost:9000".to_string());
    assert_eq!(map_input_to_commands(short).unwrap(), map_input_to_commands(long).unwrap());
}

#[test]
fn query_items_equal_query_in_url() {
    let with_items =
        map_input_to_commands(default_request("example.com", &["name==John", "job==dev"]))
            .unwrap();
    let with_query = map_input_to_commands(default_request("example.com?name=John&job=dev", &[]))
        .unwrap();
    assert_eq!(with_items, with_query);
}

#[test]
fn save_as_saves_before_submit() {
    let mut i = input(
        CliCommandChoice::BasicRequest { method: METHODS::POST, url: "example.com".to_string() },
        &["name=John"],
    );
    i.save_options.save_as = Some("main-endpoint".to_string());
    let commands = map_input_to_commands(i).unwrap();
    let data = PartialRequestData::default()
        .with_method(METHODS::POST)
        .with_url("example.com")
        .with_body(r#"{"name":"John"}"#);
    assert_eq!(
        commands,
        vec![
            ViewCommandChoice::SaveRequestWithBaseRequest {
                request_name: "main-endpoint".to_string(),
                base_request_name: None,
                request_data: data.duplicate(),
                view_options: view(),
            },
            ViewCommandChoice::SubmitRequest {
                request: data.to_request_data(),
                view_options: view(),
            },
        ]
    );
}

#[test]
fn run_with_save_saves_then_submits() {
    let i = input(
        CliCommandChoice::Run { request_name: "create-user".to_string(), save: true },
        &["name=Jane"],
    );
    let commands = map_input_to_commands(i).unwrap();
    let data = PartialRequestData::default().with_body(r#"{"name":"Jane"}"#);
    assert_eq!(
        commands,
        vec![
            ViewCommandChoice::SaveRequestWithBaseRequest {
                request_name: "create-user".to_string(),
                base_request_name: Some("create-user".to_string()),
                request_data: data.duplicate(),
                view_options: view(),
            },
            ViewCommandChoice::SubmitSavedRequest {
                request_name: "create-user".to_string(),
                request_data: data,
                view_options: view(),
            },
        ]
    );
}

#[test]
fn run_with_save_as_names_base_request() {
    let mut i = input(
        CliCommandChoice::Run { request_name: "main-endpoint".to_string(), save: false },
        &["job=dev"],
    );
    i.save_options.save_as = Some("endpoint-with-job".to_string());
    let commands = map_input_to_commands(i).unwrap();
    let data = PartialRequestData::default().with_body(r#"{"job":"dev"}"#);
    assert_eq!(
        commands,
        vec![
            ViewCommandChoice::SaveRequestWithBaseRequest {
                request_name: "endpoint-with-job".to_string(),
                base_request_name: Some("main-endpoint".to_string()),
                request_data: data.duplicate(),
                view_options: view(),
            },
            ViewCommandChoice::SubmitSavedRequest {
                request_name: "main-endpoint".to_string(),
                request_data: data,
                view_options: view(),
            },
        ]
    );
}

#[test]
fn edit_saves_without_submit() {
    let mut i = input(
        CliCommandChoice::Edit { request_name: "main-endpoint".to_string() },
        &["name=Michael"],
    );
    i.request_input.method_manual = Some(METHODS::PATCH);
    let commands = map_input_to_commands(i).unwrap();
    let data = PartialRequestData::default()
        .with_method(METHODS::PATCH)
        .with_body(r#"{"name":"Michael"}"#);
    assert_eq!(
        commands,
        vec![ViewCommandChoice::SaveRequestWithBaseRequest {
            request_name: "main-endpoint".to_string(),
            base_request_name: Some("main-endpoint".to_string()),
            request_data: data,
            view_options: view(),
        }]
    );
}

#[test]
fn commands_on_saved_requests() {
    assert_eq!(
        map_input_to_commands(input(CliCommandChoice::Ls, &[])).unwrap(),
        vec![ViewCommandChoice::ShowRequests]
    );
    assert_eq!(
        map_input_to_commands(input(
            CliCommandChoice::Inspect { request_name: "a".to_string() },
            &[]
        ))
        .unwrap(),
        vec![ViewCommandChoice::InspectRequest { request_name: "a".to_string() }]
    );
    assert_eq!(
        map_input_to_commands(input(
            CliCommandChoice::Remove { request_name: "a".to_string() },
            &[]
        ))
        .unwrap(),
        vec![ViewCommandChoice::RemoveSavedRequest {
            request_name: "a".to_string(),
            view_options: view(),
        }]
    );
    assert_eq!(
        map_input_to_commands(input(
            CliCommandChoice::Rename {
                request_name: "a".to_string(),
                new_name: "b".to_string(),
                has_to_confirm: false,
            },
            &[]
        ))
        .unwrap(),
        vec![ViewCommandChoice::RenameSavedRequest {
            request_name: "a".to_string(),
            new_name: "b".to_string(),
            has_to_confirm: false,
            view_options: view(),
        }]
    );
}

#[test]
fn nested_body_items() {
    let commands = map_input_to_commands(input(
        CliCommandChoice::BasicRequest { method: METHODS::POST, url: "api.com/user".to_string() },
        &["user[address][city]=Tokio", "friends:=[\"Bob\", \"Jane\"]", "birth-year:=1990"],
    ))
    .unwrap();
    assert_eq!(
        commands,
        vec![ViewCommandChoice::SubmitRequest {
            request: RequestData::default()
                .with_method(METHODS::POST)
                .with_url("api.com/user")
                .with_body(
                    r#"{"birth-year": 1990, "friends": ["Bob", "Jane"], "user": {"address": {"city": "Tokio"}}}"#
                ),
            view_options: view(),
        }]
    );
}

#[test]
fn raw_object_and_items_equal_items_alone() {
    let mut with_raw = input(
        CliCommandChoice::BasicRequest {
            method: METHODS::POST,
            url: "example.com?sort=true".to_string(),
        },
        &["job=dev", "food=pizza"],
    );
    with_raw.request_input.raw_body = Some(r#"{ "friends": ["John", "Jane"] }"#.to_string());
    let with_items = input(
        CliCommandChoice::BasicRequest { method: METHODS::POST, url: "example.com".to_string() },
        &["sort==true", r#"friends:=["John", "Jane"]"#, "job=dev", "food=pizza"],
    );
    let a = map_input_to_commands(with_raw).unwrap();
    let b = map_input_to_commands(with_items).unwrap();
    assert_eq!(a, b);
    assert_eq!(
        a,
        vec![ViewCommandChoice::SubmitRequest {
            request: RequestData::default()
                .with_method(METHODS::POST)
                .with_url("example.com?sort=true")
                .with_body(r#"{ "friends": ["John", "Jane"], "job": "dev", "food": "pizza" }"#),
            view_options: view(),
        }]
    );
}

#[test]
fn json_payload_from_items() {
    let commands = map_input_to_commands(input(
        CliCommandChoice::BasicRequest { method: METHODS::POST, url: "example.com".to_string() },
        &["X-API-Token:123", "name=John", "food=pizza"],
    ))
    .unwrap();
    assert_eq!(
        commands,
        vec![ViewCommandChoice::SubmitRequest {
            request: RequestData::default()
                .with_method(METHODS::POST)
                .with_url("example.com")
                .with_headers(vec![("X-API-Token".to_string(), "123".to_string())])
                .with_body(r#"{ "name": "John", "food": "pizza" }"#),
            view_options: view(),
        }]
    );
}

#[test]
fn raw_body_beyond_json_numbers_is_refused() {
    let mut i = default_request("url.com", &["Hello=World"]);
    i.request_input.raw_body = Some(r#"{"a":1e400}"#.to_string());
    assert_eq!(map_input_to_commands(i), Err(InputError::RawBodyNotAnObject));
}

#[test]
fn empty_header_item_removes_header() {
    let commands = map_input_to_commands(input(
        CliCommandChoice::BasicRequest { method: METHODS::GET, url: "example.com".to_string() },
        &["connection:keep-alive", "X:1", "connection:"],
    ))
    .unwrap();
    assert_eq!(
        commands,
        vec![ViewCommandChoice::SubmitRequest {
            request: RequestData::default()
                .with_url("example.com")
                .with_headers(vec![("X".to_string(), "1".to_string())]),
            view_options: view(),
        }]
    );
}
