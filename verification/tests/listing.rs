use treq::listing::{listing_lines, request_list_lines, sort_request_names};
use treq::notices::{
    base_saving_text, centered_border_size, get_runner_of_command, inspect_heading,
    removal_heading, rename_goes_ahead, rename_heading, saving_heading, submit_saved_heading,
};
use treq::clap_parser::AppCommand;
use treq::executors::Stream;
use treq::output::{Line, BREAK_LINE, TAB_SPACE};
use treq::request::RequestData;
use treq::style::{Color, StyledStr};
use treq::url::Url;

fn names(v: &[&str]) -> Vec<String> {
    v.iter().map(|s| s.to_string()).collect()
}

#[test]
fn names_are_sorted() {
    assert_eq!(
        sort_request_names(names(&["some-put", "a-great-post", "simple-get", "a-great-post"])),
        names(&["a-great-post", "a-great-post", "simple-get", "some-put"])
    );
    assert_eq!(sort_request_names(vec![]), Vec::<String>::new());
    assert_eq!(sort_request_names(names(&["b", "B", "a"])), names(&["B", "a", "b"]));
}

#[test]
fn listing_of_names() {
    let empty: Vec<String> = vec![];
    assert_eq!(
        request_list_lines(&empty),
        vec![
            Line::Text(BREAK_LINE),
            Line::Styled(vec![StyledStr::from(" No requests found")]),
            Line::Text(BREAK_LINE),
        ]
    );
    let two = names(&["a", "b"]);
    assert_eq!(
        request_list_lines(&two),
        vec![
            Line::Text(BREAK_LINE),
            Line::Styled(vec![StyledStr::from(" Requests").with_color_text(Color::Yellow)]),
            Line::Styled(vec![StyledStr::from(TAB_SPACE), StyledStr::from("a")]),
            Line::Styled(vec![StyledStr::from(TAB_SPACE), StyledStr::from("b")]),
        ]
    );
}

#[test]
fn headings() {
    assert_eq!(inspect_heading("r").len(), 3);
    assert_eq!(
        removal_heading("r")[1],
        Line::Styled(vec![
            StyledStr::from(" Removing: ").with_color_text(Color::Red),
            StyledStr::from("r").with_color_text(Color::Yellow),
        ])
    );
    assert_eq!(rename_heading("a", "b").len(), 3);
    assert_eq!(
        saving_heading("n")[2],
        Line::Styled(vec![
            StyledStr::from(" -> "),
            StyledStr::from("n").with_color_text(Color::Blue),
        ])
    );
    assert_eq!(
        submit_saved_heading("n")[2],
        Line::Styled(vec![StyledStr::from(" | -> "), StyledStr::from("n")])
    );
    assert_eq!(base_saving_text("base", "new"), " | base -> new");
    assert!(rename_goes_ahead(false, false));
    assert!(!rename_goes_ahead(true, false));
    assert!(rename_goes_ahead(true, true));
    assert_eq!(centered_border_size(80, 10), 34);
}

#[test]
fn runner_of_command() {
    let runner = get_runner_of_command(AppCommand::BasicRequest {
        req: RequestData::default().with_url("url.com"),
    });
    assert_eq!(runner.request, RequestData::default().with_url("url.com"));
    assert_eq!(runner.writer_stdout.stream, Stream::Stdout);
    assert_eq!(runner.writer_stderr.stream, Stream::Stderr);
}

#[test]
fn url_text() {
    assert_eq!(Url::from_str("example.com?a=1&b=2").to_text(), "http://example.com?a=1&b=2");
    assert_eq!(Url::from_str("https://example.com").to_text(), "https://example.com");
    assert_eq!(Url::from_str("url,io").to_text(), "url,io");
    assert_eq!(Url::from_str("example.com?a").to_text(), "http://example.com?a=");
}

#[test]
fn listing_without_notice() {
    let empty: Vec<String> = vec![];
    assert_eq!(
        listing_lines(&empty),
        vec![
            Line::Text(BREAK_LINE),
            Line::Styled(vec![StyledStr::from(" Requests").with_color_text(Color::Yellow)]),
        ]
    );
}
