use treq::methods::METHODS;
use treq::clap_parser::{parse_cli_args_to_app_command, AppCommand, CliArgs, Commands};
use treq::request::RequestData;

#[test]
fn with_only_url() {
    let input = CliArgs {
        url_manual: Some("url.com".into()),
        body: None,
        command: None,
        header: vec![],
        json: false,
    };

    let output = parse_cli_args_to_app_command(input);

    assert_eq!(
        output,
        AppCommand::BasicRequest {
            req: RequestData::default().with_url("url.com")
        }
    );
}

#[test]
fn with_get_method() {
    let input = CliArgs {
        url_manual: None,
        body: None,
        header: vec![],
        command: Some(Commands::GET {
            url: "url.com".into(),
            body: Some("{}".into()),
            header: vec![],
            json: false,
        }),
        json: false,
    };

    let output = parse_cli_args_to_app_command(input);

    assert_eq!(
        output,
        AppCommand::BasicRequest {
            req: RequestData::default().with_url("url.com").with_body("{}")
        }
    );
}

#[test]
fn subcommand_headers_and_json() {
    let input = CliArgs {
        url_manual: None,
        body: None,
        header: vec![
            "Authorization=None".into(),
            "no-separator".into(),
            "X=a=b".into(),
            "Authorization=Basic".into(),
        ],
        command: Some(Commands::PUT {
            url: "example.com".into(),
            body: Some("{}".into()),
            header: vec!["Accept=text".into(), "Content-Type=text/plain".into()],
            json: true,
        }),
        json: false,
    };
    let output = parse_cli_args_to_app_command(input);
    assert_eq!(
        output,
        AppCommand::BasicRequest {
            req: RequestData::default()
                .with_method(METHODS::PUT)
                .with_url("example.com")
                .with_headers(vec![
                    ("Accept".into(), "text".into()),
                    ("Content-Type".into(), "application/json".into()),
                ])
                .with_body("{}")
        }
    );
}

#[test]
fn url_given_alone_overrides_subcommand() {
    let input = CliArgs {
        url_manual: Some("url.com".into()),
        body: Some("x".into()),
        header: vec!["A=1".into(), "A=2".into()],
        command: Some(Commands::POST {
            url: "other.com".into(),
            body: None,
            header: vec![],
            json: false,
        }),
        json: false,
    };
    assert_eq!(
        parse_cli_args_to_app_command(input),
        AppCommand::BasicRequest {
            req: RequestData::default()
                .with_url("url.com")
                .with_headers(vec![("A".into(), "2".into())])
                .with_body("x")
        }
    );
}

#[test]
fn each_subcommand_sends_its_method() {
    let cases = [
        (Commands::POST { url: "u.com".into(), body: None, header: vec![], json: false }, METHODS::POST),
        (Commands::PUT { url: "u.com".into(), body: None, header: vec![], json: false }, METHODS::PUT),
        (Commands::PATCH { url: "u.com".into(), body: None, header: vec![], json: false }, METHODS::PATCH),
        (Commands::DELETE { url: "u.com".into(), body: None, header: vec![], json: false }, METHODS::DELETE),
        (Commands::HEAD { url: "u.com".into(), body: None, header: vec![], json: false }, METHODS::HEAD),
        (Commands::OPTIONS { url: "u.com".into(), body: None, header: vec![], json: false }, METHODS::OPTIONS),
    ];
    for (command, method) in cases {
        let input = CliArgs { url_manual: None, body: None, header: vec![], command: Some(command), json: false };
        assert_eq!(
            parse_cli_args_to_app_command(input),
            AppCommand::BasicRequest { req: RequestData::default().with_method(method).with_url("u.com") }
        );
    }
}
