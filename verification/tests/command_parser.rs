#![allow(non_snake_case)]

use treq::cli_commands::{
    get_executor_of_cli_command, CliCommandChoice, CliExecutor, OptionalRequestData,
};
use treq::cli_input::ArgValues;
use treq::cli_parser::{
    is_url, parse_clap_input_to_commands, parse_list_of_data_to_request_data, ParseError,
};
use treq::executors::Stream;
use treq::methods::METHODS;
use treq::request::RequestData;

/// The values the command line definition gives for whitespace-separated
/// arguments, after the program name.
fn matches_from(line: &str) -> ArgValues {
    let words: Vec<&str> = line.split_whitespace().skip(1).collect();
    let mut values = ArgValues {
        subcommand: None,
        inputs: None,
        request_items: None,
        raw: None,
        url_manual: None,
        method_manual: None,
        save_as: None,
        save: Some(false),
        no_confirm: false,
    };
    let subcommands = [
        "GET", "POST", "PUT", "DELETE", "HEAD", "PATCH", "run", "edit", "remove", "rename", "ls",
        "inspect",
    ];
    let mut rest = words.as_slice();
    if let Some(first) = rest.first() {
        if subcommands.contains(first) {
            values.subcommand = Some(first.to_string());
            rest = &rest[1..];
        }
    }
    let mut inputs = Vec::new();
    let mut i = 0;
    while i < rest.len() {
        match rest[i] {
            "--raw" => {
                values.raw = Some(rest[i + 1].to_string());
                i += 2;
            }
            "--save-as" => {
                values.save_as = Some(rest[i + 1].to_string());
                i += 2;
            }
            "--url" | "-u" => {
                values.url_manual = Some(rest[i + 1].to_string());
                i += 2;
            }
            "--method" => {
                values.method_manual = Some(rest[i + 1].to_string());
                i += 2;
            }
            "--save" => {
                values.save = Some(true);
                i += 1;
            }
            other => {
                inputs.push(other.to_string());
                i += 1;
            }
        }
    }
    if !inputs.is_empty() {
        values.inputs = Some(inputs);
    }
    values
}

fn matches(words: &[&str]) -> ArgValues {
    matches_from(&words.join(" "))
}

#[test]
fn test_parse_all_methods_command() {
    for method in [
        METHODS::GET,
        METHODS::POST,
        METHODS::PUT,
        METHODS::DELETE,
        METHODS::HEAD,
        METHODS::PATCH,
    ] {
        let input = matches(&["treq", method.as_str(), "url.com"]);
        assert_eq!(
            parse_clap_input_to_commands(input).unwrap(),
            Vec::from([CliCommandChoice::SubmitRequest {
                request: RequestData::default().with_method(method).with_url("url.com")
            }])
        );
    }
}

#[test]
fn test_without_explicit_method_using_default_get() {
    let input = matches(&["treq", "url.com"]);
    assert_eq!(
        parse_clap_input_to_commands(input).unwrap(),
        vec![CliCommandChoice::SubmitRequest {
            request: RequestData::default().with_method(METHODS::GET).with_url("url.com")
        }]
    );
}

#[test]
fn test_without_explicit_method_using_default_post() {
    let input = matches(&["treq", "url.com", "Hello=World"]);
    assert_eq!(
        parse_clap_input_to_commands(input).unwrap(),
        vec![CliCommandChoice::SubmitRequest {
            request: RequestData::default()
                .with_method(METHODS::POST)
                .with_url("url.com")
                .with_body(r#"{"Hello":"World"}"#)
        }]
    );
}

#[test]
fn test_parse_with_header_value() {
    let input = matches(&["treq", "POST", "http://httpbin.org/something", "Auth:Value"]);
    assert_eq!(
        parse_clap_input_to_commands(input).unwrap(),
        vec![CliCommandChoice::SubmitRequest {
            request: RequestData::default()
                .with_method(METHODS::POST)
                .with_headers(vec![("Auth".into(), "Value".into())])
                .with_url("http://httpbin.org/something")
        }]
    );
}

#[test]
fn test_parse_basic_post_with_save_as() {
    let input = matches(&["treq", "POST", "http://httpbin.org/user", "--save-as", "create_user"]);

    let expected_request_data = OptionalRequestData {
        url: Some("http://httpbin.org/user".into()),
        method: Some(METHODS::POST),
        headers: None,
        body: None,
    };

    assert_eq!(
        parse_clap_input_to_commands(input).unwrap(),
        Vec::from([
            CliCommandChoice::SaveRequest {
                request: expected_request_data.duplicate(),
                request_name: "create_user".to_string()
            },
            CliCommandChoice::SubmitRequest { request: expected_request_data.to_request_data() }
        ])
    );
}

#[test]
fn test_run_command() {
    let input = matches(&["treq", "run", "create_user"]);

    assert_eq!(
        parse_clap_input_to_commands(input).unwrap(),
        Vec::from([CliCommandChoice::SubmitSavedRequest { request_name: "create_user".into() }])
    );
}

#[test]
fn test_run_command_with_additional_datas() {
    let input = matches(&["treq", "run", "create_user", "Content:json"]);

    let expected_request_data = OptionalRequestData {
        headers: Some(vec![("Content".into(), "json".into())]),
        url: None,
        method: None,
        body: None,
    };

    assert_eq!(
        Vec::from([CliCommandChoice::SubmitSavedRequestWithAdditionalData {
            request_name: "create_user".into(),
            request_data: expected_request_data
        },]),
        parse_clap_input_to_commands(input).unwrap(),
    );
}

#[test]
fn test_run_command_with_additional_datas_and_save_as() {
    let input = matches(&[
        "treq",
        "run",
        "create_user",
        "Content:json",
        "--save-as",
        "new_create_user",
    ]);

    let expected_request_data = OptionalRequestData {
        url: None,
        method: None,
        headers: Some(vec![("Content".into(), "json".into())]),
        body: None,
    };

    assert_eq!(
        Vec::from([
            CliCommandChoice::SaveRequest {
                request: expected_request_data.duplicate(),
                request_name: "new_create_user".into(),
            },
            CliCommandChoice::SubmitSavedRequestWithAdditionalData {
                request_name: "create_user".into(),
                request_data: expected_request_data
            },
        ]),
        parse_clap_input_to_commands(input).unwrap(),
    );
}

#[test]
fn test_edit_command() {
    let input = matches(&[
        "treq",
        "edit",
        "create_user",
        "--url",
        "url.com",
        "Content-type:something",
    ]);

    assert_eq!(
        Vec::from([CliCommandChoice::SaveRequest {
            request_name: "create_user".into(),
            request: OptionalRequestData {
                url: Some("url.com".into()),
                headers: Some(vec![("Content-type".into(), "something".into())]),
                method: None,
                body: None,
            }
        }]),
        parse_clap_input_to_commands(input).unwrap(),
    );
}

#[test]
fn test_remove_command() {
    let input = matches(&["treq", "remove", "create_user"]);

    assert_eq!(
        parse_clap_input_to_commands(input).unwrap(),
        Vec::from([CliCommandChoice::RemoveSavedRequest { request_name: "create_user".into() }])
    );
}

#[test]
fn test_rename_command() {
    let input = matches(&["treq", "rename", "create_user", "new_name"]);

    assert_eq!(
        parse_clap_input_to_commands(input).unwrap(),
        Vec::from([CliCommandChoice::RenameSavedRequest {
            request_name: "create_user".into(),
            new_name: "new_name".into()
        }])
    );
}

#[test]
fn should_parse_to_normal_GET_submit_without_passing_method_as_subcommand_and_no_body() {
    let input = "treq url.com";
    let result = parse_clap_input_to_commands(matches_from(input)).unwrap();

    assert!(result.len() == 1);
    assert_eq!(
        result,
        vec![CliCommandChoice::SubmitRequest {
            request: RequestData::default().with_method(METHODS::GET).with_url("url.com")
        }]
    );
}

#[test]
fn should_parse_to_normal_POST_submit_without_passing_method_as_subcommand_but_passing_some_body_data(
) {
    let input = "treq url.com Hello=World";
    let result = parse_clap_input_to_commands(matches_from(input)).unwrap();

    assert!(result.len() == 1);
    assert_eq!(
        result,
        vec![CliCommandChoice::SubmitRequest {
            request: RequestData::default()
                .with_method(METHODS::POST)
                .with_url("url.com")
                .with_body(r#"{"Hello":"World"}"#)
        }]
    );
}

#[test]
fn should_ignore_body_inputs_in_GET_request() {
    let input = "treq GET url.com Hello=World";
    let result = parse_clap_input_to_commands(matches_from(input)).unwrap();

    assert!(result.len() == 1);
    assert_eq!(
        result,
        vec![CliCommandChoice::SubmitRequest {
            request: RequestData::default().with_method(METHODS::GET).with_url("url.com")
        }]
    );
}

#[test]
fn should_parse_all_methods_subcommands_to_normal_submits() {
    let all_methods = ["GET", "POST", "PUT", "DELETE", "HEAD", "PATCH"];

    let inputs = all_methods
        .iter()
        .map(|method| format!("treq {} url.com", method))
        .collect::<Vec<_>>();

    inputs.iter().for_each(|input| {
        let result = parse_clap_input_to_commands(matches_from(input)).unwrap();
        assert!(result.len() == 1);
        let method = METHODS::from_str(input.split_whitespace().nth(1).unwrap()).unwrap();
        assert_eq!(
            result,
            vec![CliCommandChoice::SubmitRequest {
                request: RequestData::default().with_method(method).with_url("url.com")
            }]
        );
    });
}

#[test]
fn should_parse_same_way_with_or_without_protocol_in_url() {
    let input1 = "treq url.com";
    let input2 = "treq http://url.com";

    let result1 = parse_clap_input_to_commands(matches_from(input1)).unwrap();
    let result2 = parse_clap_input_to_commands(matches_from(input2)).unwrap();

    assert_eq!(result1, result2);
}

#[test]
fn should_error_if_no_input() {
    let input = "treq";
    let result = parse_clap_input_to_commands(matches_from(input));
    assert!(result.is_err());
    assert!(result.unwrap_err().message().contains("No inputs"));
}

#[test]
fn should_error_if_url_is_invalid() {
    let invalid_urls = ["treq htp://url", "treq url,io", "treq url-io:"];

    let mut results = invalid_urls
        .into_iter()
        .map(|input| parse_clap_input_to_commands(matches_from(input)));
    assert!(results.all(|result| result.is_err()));
}

#[test]
fn should_error_if_url_value_iS_not_a_valid_url() {
    let input = "treq GET invalid-url#value";
    let result = parse_clap_input_to_commands(matches_from(input));
    assert!(result.is_err());
}

#[test]
fn should_raw_flag_work_equal_param_body_definition() {
    let input1 = "treq POST url.com Hello=World";
    let input2 = r#"treq POST url.com --raw {"Hello":"World"}"#;

    let result1 = parse_clap_input_to_commands(matches_from(input1));
    let result2 = parse_clap_input_to_commands(matches_from(input2));

    assert!(result1.is_ok());
    assert!(result2.is_ok());
    assert_eq!(result1.unwrap(), result2.unwrap());
}

#[test]
fn should_return_error_if_raw_flag_and_param_body_are_both_used() {
    let input = r#"treq POST url.com --raw {"Hello":"World"}" Hello=World"#;
    let result = parse_clap_input_to_commands(matches_from(input));
    assert!(result.is_err());
    assert!(result.unwrap_err().message().contains("--raw"));
}

#[test]
fn parser_invalid_urls_name_the_url() {
    for url in ["htp://url", "url,io", "url-io:"] {
        let result = parse_clap_input_to_commands(matches(&["treq", url]));
        assert_eq!(result, Err(ParseError::InvalidUrl(url.to_string())));
        assert_eq!(result.unwrap_err().message(), format!("Invalid URL: {url}"));
    }
}

#[test]
fn parser_raw_that_is_no_json_is_an_error() {
    let mut a = matches(&["treq", "POST", "url.com"]);
    a.raw = Some("{ not json".to_string());
    let expected = serde_json::from_str::<serde_json::Value>("{ not json").unwrap_err().to_string();
    assert_eq!(parse_clap_input_to_commands(a), Err(ParseError::InvalidRawBody(expected)));
    let mut b = matches(&["treq", "POST", "url.com"]);
    b.raw = Some(String::new());
    assert!(matches!(parse_clap_input_to_commands(b), Err(ParseError::InvalidRawBody(_))));
}

#[test]
fn parser_run_with_save_merges_onto_the_saved_request() {
    let input = matches(&["treq", "run", "create_user", "Content:json", "--save"]);
    let data = OptionalRequestData {
        url: None,
        method: None,
        headers: Some(vec![("Content".into(), "json".into())]),
        body: None,
    };
    assert_eq!(
        parse_clap_input_to_commands(input).unwrap(),
        vec![
            CliCommandChoice::SaveRequestWithBaseRequest {
                request_name: "create_user".to_string(),
                base_request_name: Some("create_user".to_string()),
                request_data: data.duplicate(),
            },
            CliCommandChoice::SubmitSavedRequestWithAdditionalData {
                request_name: "create_user".to_string(),
                request_data: data,
            },
        ]
    );
}

#[test]
fn parser_edit_errors() {
    let mut a = matches(&["treq", "edit", "create_user"]);
    a.url_manual = Some("url,io".to_string());
    assert_eq!(
        parse_clap_input_to_commands(a),
        Err(ParseError::InvalidUrl("url,io".to_string()))
    );
    let mut b = matches(&["treq", "edit", "create_user"]);
    b.method_manual = Some("FETCH".to_string());
    assert_eq!(parse_clap_input_to_commands(b), Err(ParseError::UnknownMethod));
    let mut c = matches(&["treq", "x"]);
    c.subcommand = Some("fly".to_string());
    assert_eq!(parse_clap_input_to_commands(c), Err(ParseError::NoValidSubcommand));
    assert_eq!(
        parse_clap_input_to_commands(matches(&["treq", "ls"])).unwrap(),
        vec![CliCommandChoice::ShowRequests]
    );
}

#[test]
fn parser_items_later_values_win() {
    let items = vec![
        "a=1".to_string(),
        "X-Key:one".to_string(),
        "b=2".to_string(),
        "a=3".to_string(),
        "X-Key:two".to_string(),
        "Y:x".to_string(),
        "Y:".to_string(),
        "ignored".to_string(),
    ];
    let data = parse_list_of_data_to_request_data(&items);
    assert_eq!(data.headers, Some(vec![("X-Key".to_string(), "two".to_string())]));
    assert_eq!(data.body, Some(r#"{"a":"3","b":"2"}"#.to_string()));
    assert_eq!(data.url, None);
    assert_eq!(data.method, None);
}

#[test]
fn parser_body_items_in_key_order_and_escaped() {
    let items = vec![
        "zeta=last".to_string(),
        "Alpha=first".to_string(),
        "quote\"d=back\\slash".to_string(),
        "ctl=a\u{1}b\tc\nd".to_string(),
    ];
    let data = parse_list_of_data_to_request_data(&items);
    assert_eq!(
        data.body,
        Some(
            r#"{"Alpha":"first","ctl":"a\u0001b\tc\nd","quote\"d":"back\\slash","zeta":"last"}"#
                .to_string()
        )
    );
}

#[test]
fn parser_body_items_with_headers_equal_raw() {
    let with_items = "treq PUT url.com b=2 X-Key:v a=1";
    let with_raw = r#"treq PUT url.com X-Key:v --raw {"a":"1","b":"2"}"#;
    let r1 = parse_clap_input_to_commands(matches_from(with_items));
    let r2 = parse_clap_input_to_commands(matches_from(with_raw));
    assert!(r1.is_ok());
    assert_eq!(r1, r2);
}

#[test]
fn parser_header_names_once() {
    let items = vec!["K:1".to_string(), "K:2".to_string(), "L:3".to_string(), "K:4".to_string()];
    let data = parse_list_of_data_to_request_data(&items);
    assert_eq!(
        data.headers,
        Some(vec![("K".to_string(), "4".to_string()), ("L".to_string(), "3".to_string())])
    );
}

#[test]
fn parser_is_url() {
    assert!(is_url("url.com"));
    assert!(is_url("http://url.com"));
    assert!(is_url("https://example.com/users?id=1"));
    assert!(!is_url("htp://url"));
    assert!(!is_url("url,io"));
}

#[test]
fn parser_executor_streams() {
    match get_executor_of_cli_command(CliCommandChoice::ShowRequests) {
        CliExecutor::ShowRequests(e) => assert_eq!(e.writer.stream, Stream::Stdout),
        other => panic!("unexpected executor {:?}", other),
    }
    let request = RequestData::default().with_url("url.com");
    match get_executor_of_cli_command(CliCommandChoice::SubmitRequest { request }) {
        CliExecutor::SubmitRequest(e) => {
            assert_eq!(e.request, RequestData::default().with_url("url.com"));
            assert_eq!(e.writer_stdout.stream, Stream::Stdout);
            assert_eq!(e.writer_stderr.stream, Stream::Stderr);
        }
        other => panic!("unexpected executor {:?}", other),
    }
    match get_executor_of_cli_command(CliCommandChoice::SubmitSavedRequest {
        request_name: "a".to_string(),
    }) {
        CliExecutor::SubmitSavedRequest(e) => {
            assert_eq!(e.request_data, OptionalRequestData::default());
        }
        other => panic!("unexpected executor {:?}", other),
    }
}
