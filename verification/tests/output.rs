use treq::cli_input::ViewOptions;
use treq::commands::ViewCommandChoice;
use treq::executors::{ProgressDrawTarget, Stream, ViewExecutor};
use treq::methods::METHODS;
use treq::output::{
    decimal, elapsed_text, error_report, header_lines, request_preview, response_summary,
    status_message_text, status_title, timed_status_title, Line, BREAK_LINE,
    BREAK_LINE_WITH_GAP, SINGLE_SPACE, TAB_SPACE,
};
use treq::request::RequestData;
use treq::style::{create_vec_styled_string_from, Color, StyledStr, TextStyle};

#[test]
fn decimal_text() {
    assert_eq!(decimal(0), "0");
    assert_eq!(decimal(7), "7");
    assert_eq!(decimal(200), "200");
    assert_eq!(decimal(1234567890), "1234567890");
    assert_eq!(decimal(u64::MAX), u64::MAX.to_string());
    assert_eq!(elapsed_text(42), " 42 MS ");
    assert_eq!(status_message_text("OK"), " (OK)");
}

#[test]
fn styled_builders() {
    let s = StyledStr::from("x")
        .with_color_text(Color::Red)
        .with_color_bg(Color::White)
        .with_text_style(TextStyle::Italic);
    assert_eq!(s.value, "x");
    assert_eq!(s.color_text(), Some(Color::Red));
    assert_eq!(s.color_bg(), Some(Color::White));
    assert_eq!(s.style_text(), Some(TextStyle::Italic));
    let t = StyledStr::from("x")
        .with_text_style(TextStyle::Italic)
        .with_color_bg(Color::White)
        .with_color_text(Color::Red);
    assert_eq!(s, t);
    let plain = StyledStr::from("y");
    assert_eq!(plain.color_text(), None);
    assert_eq!(plain.color_bg(), None);
    assert_eq!(plain.style_text(), None);
    assert_eq!(StyledStr::from("z").with_color_text(Color::Red).into_string(), "z");
    let v = create_vec_styled_string_from(&vec!["a", "b"]);
    assert_eq!(v, vec![StyledStr::from("a"), StyledStr::from("b")]);
}

#[test]
fn preview_of_request() {
    let headers = vec![("Auth".to_string(), "Value".to_string())];
    let lines = request_preview(METHODS::POST, "example.com", &headers);
    assert_eq!(
        lines,
        vec![
            Line::Text(BREAK_LINE),
            Line::Styled(vec![
                StyledStr::from(TAB_SPACE),
                StyledStr::from("POST").with_text_style(TextStyle::Bold),
                StyledStr::from(SINGLE_SPACE),
                StyledStr::from("example.com").with_color_text(Color::Blue),
            ]),
            Line::Styled(vec![
                StyledStr::from(TAB_SPACE),
                StyledStr::from("| "),
                StyledStr::from("Auth"),
                StyledStr::from(":"),
                StyledStr::from("Value"),
            ]),
            Line::Text(BREAK_LINE),
        ]
    );
    assert_eq!(header_lines(&vec![]), vec![]);
}

#[test]
fn report_of_error() {
    assert_eq!(
        error_report("timeout"),
        vec![
            Line::Styled(vec![
                StyledStr::from(TAB_SPACE),
                StyledStr::from("Error Requesting...").with_color_text(Color::Red),
            ]),
            Line::Text("timeout"),
            Line::Text(BREAK_LINE),
        ]
    );
}

#[test]
fn summary_of_response() {
    let status = decimal(200);
    let message = status_message_text("OK");
    let time = elapsed_text(12);
    let title = timed_status_title(&status, &message, &time);
    let mut expected_title = status_title("200", " (OK)");
    expected_title.push(StyledStr::from("    "));
    expected_title.push(StyledStr::from(" 12 MS "));
    assert_eq!(title, expected_title);
    let headers = vec![("Server".to_string(), "x".to_string())];
    let lines = response_summary(title.clone(), &headers);
    assert_eq!(lines.len(), 4);
    assert_eq!(lines[0], Line::Styled(title));
    assert_eq!(lines[1], Line::Text(BREAK_LINE_WITH_GAP));
    assert_eq!(lines[3], Line::Text(BREAK_LINE_WITH_GAP));
}

fn vo(print_body_only: bool, suppress_output: bool) -> ViewOptions {
    ViewOptions { print_body_only, suppress_output }
}

#[test]
fn executors_route_output() {
    let request = || RequestData::default().with_url("url.com");
    match (ViewCommandChoice::SubmitRequest { request: request(), view_options: vo(true, false) })
        .get_executor()
    {
        ViewExecutor::SubmitRequest(e) => {
            assert_eq!(e.request, request());
            assert_eq!(e.progress_draw_target, ProgressDrawTarget::Stderr);
            assert_eq!(e.writer_metadata.stream, Stream::Empty);
            assert_eq!(e.writer_response.stream, Stream::Stdout);
            assert_eq!(e.writer_stderr.stream, Stream::Stderr);
        }
        other => panic!("unexpected executor {:?}", other),
    }
    match (ViewCommandChoice::SubmitRequest { request: request(), view_options: vo(false, true) })
        .get_executor()
    {
        ViewExecutor::SubmitRequest(e) => {
            assert_eq!(e.progress_draw_target, ProgressDrawTarget::Hidden);
            assert_eq!(e.writer_metadata.stream, Stream::Empty);
            assert_eq!(e.writer_response.stream, Stream::Empty);
            assert_eq!(e.writer_stderr.stream, Stream::Stderr);
        }
        other => panic!("unexpected executor {:?}", other),
    }
    match (ViewCommandChoice::SubmitRequest { request: request(), view_options: vo(false, false) })
        .get_executor()
    {
        ViewExecutor::SubmitRequest(e) => {
            assert_eq!(e.writer_metadata.stream, Stream::Stderr);
            assert_eq!(e.writer_response.stream, Stream::Stdout);
        }
        other => panic!("unexpected executor {:?}", other),
    }
    match (ViewCommandChoice::RemoveSavedRequest {
        request_name: "a".to_string(),
        view_options: vo(false, true),
    })
    .get_executor()
    {
        ViewExecutor::RemoveSavedRequest(e) => {
            assert_eq!(e.request_name, "a");
            assert_eq!(e.writer.stream, Stream::Empty);
        }
        other => panic!("unexpected executor {:?}", other),
    }
    match ViewCommandChoice::ShowRequests.get_executor() {
        ViewExecutor::ShowRequests(e) => assert_eq!(e.writer.stream, Stream::Stdout),
        other => panic!("unexpected executor {:?}", other),
    }
    match (ViewCommandChoice::SaveRequestWithBaseRequest {
        request_name: "a".to_string(),
        base_request_name: None,
        request_data: treq::request::PartialRequestData::default(),
        view_options: vo(false, false),
    })
    .get_executor()
    {
        ViewExecutor::SaveRequestWithBaseRequest(e) => {
            assert_eq!(e.writer.stream, Stream::Stderr)
        }
        other => panic!("unexpected executor {:?}", other),
    }
}
