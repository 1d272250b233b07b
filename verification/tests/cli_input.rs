use treq::cli_input::{ArgValues, CliCommandChoice, CliInput, InputError, ViewOptions};
use treq::methods::METHODS;

fn args(subcommand: Option<&str>, inputs: Option<&[&str]>) -> ArgValues {
    ArgValues {
        subcommand: subcommand.map(|s| s.to_string()),
        inputs: inputs.map(|v| v.iter().map(|s| s.to_string()).collect()),
        request_items: None,
        raw: None,
        url_manual: None,
        method_manual: None,
        save_as: None,
        save: None,
        no_confirm: false,
    }
}

#[test]
fn url_without_subcommand() {
    let input = CliInput::from_clap_matches(&args(None, Some(&["url.com"]))).unwrap();
    assert_eq!(
        input.choice,
        CliCommandChoice::DefaultBasicRequest { url: "url.com".to_string() }
    );
    assert_eq!(
        input.view_options,
        ViewOptions { print_body_only: false, suppress_output: false }
    );
}

#[test]
fn method_subcommands() {
    for (name, method) in [
        ("GET", METHODS::GET),
        ("POST", METHODS::POST),
        ("PUT", METHODS::PUT),
        ("DELETE", METHODS::DELETE),
        ("HEAD", METHODS::HEAD),
        ("PATCH", METHODS::PATCH),
    ] {
        let input = CliInput::from_clap_matches(&args(Some(name), Some(&["url.com"]))).unwrap();
        assert_eq!(
            input.choice,
            CliCommandChoice::BasicRequest { method, url: "url.com".to_string() }
        );
    }
}

#[test]
fn missing_input_is_an_error() {
    assert_eq!(
        CliInput::from_clap_matches(&args(None, None)),
        Err(InputError::NoInputGiven)
    );
    assert_eq!(
        CliInput::from_clap_matches(&args(Some("run"), None)),
        Err(InputError::NoInputGiven)
    );
    assert_eq!(
        CliInput::from_clap_matches(&args(Some("rename"), None)),
        Err(InputError::NoInputsGiven)
    );
}

#[test]
fn unknown_subcommand_is_an_error() {
    assert_eq!(
        CliInput::from_clap_matches(&args(Some("fly"), Some(&["x"]))),
        Err(InputError::NoValidSubcommand)
    );
}

#[test]
fn run_rename_and_options() {
    let mut a = args(Some("run"), Some(&["create-user"]));
    a.save = Some(true);
    a.method_manual = Some("PATCH".to_string());
    a.request_items = Some(vec!["name=Jane".to_string()]);
    a.save_as = Some("other".to_string());
    let input = CliInput::from_clap_matches(&a).unwrap();
    assert_eq!(
        input.choice,
        CliCommandChoice::Run { request_name: "create-user".to_string(), save: true }
    );
    assert_eq!(input.request_input.method_manual, Some(METHODS::PATCH));
    assert_eq!(input.request_input.request_items, vec!["name=Jane".to_string()]);
    assert_eq!(input.save_options.save_as, Some("other".to_string()));

    let mut r = args(Some("rename"), Some(&["old", "new"]));
    r.no_confirm = true;
    assert_eq!(
        CliInput::from_clap_matches(&r).unwrap().choice,
        CliCommandChoice::Rename {
            request_name: "old".to_string(),
            new_name: "new".to_string(),
            has_to_confirm: false,
        }
    );
}

#[test]
fn method_option_naming_no_method_is_left_out() {
    let mut a = args(Some("edit"), Some(&["req"]));
    a.method_manual = Some("FETCH".to_string());
    let input = CliInput::from_clap_matches(&a).unwrap();
    assert_eq!(input.request_input.method_manual, None);
}
