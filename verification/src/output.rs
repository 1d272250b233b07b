use vstd::prelude::*;

use crate::methods::{method_name, METHODS};
use crate::style::{plain, styled_view, Color, StyledModel, StyledStr, TextStyle};
use crate::text::owned;
use crate::url::pairs_of;

verus! {

broadcast use vstd::string::group_string_axioms;

/// The rule drawn around a block of output.
pub const BREAK_LINE: &'static str = "----------------------------------------";

/// The rule drawn inside a block of output.
pub const BREAK_LINE_WITH_GAP: &'static str = "  --------------------------------------";

/// The indentation of a line.
pub const TAB_SPACE: &'static str = "  ";

/// The space between two words.
pub const SINGLE_SPACE: &'static str = " ";

/// A line of output: a text as it is, or styled pieces of text.
#[derive(Debug, PartialEq, Eq)]
pub enum Line<'a> {
    Text(&'a str),
    Styled(Vec<StyledStr<'a>>),
}

/// The model of a line of output.
pub enum LineModel {
    Text(Seq<char>),
    Styled(Seq<StyledModel>),
}

impl<'a> View for Line<'a> {
    type V = LineModel;

    open spec fn view(&self) -> LineModel {
        match self {
            Line::Text(s) => LineModel::Text(s@),
            Line::Styled(v) => LineModel::Styled(styled_view(v@)),
        }
    }
}

/// The models of lines of output.
pub open spec fn lines_view<'a>(v: Seq<Line<'a>>) -> Seq<LineModel> {
    v.map_values(|l: Line<'a>| l@)
}

/// A text in a color.
pub open spec fn colored(s: Seq<char>, c: Color) -> StyledModel {
    StyledModel { color_text: Some(c), ..plain(s) }
}

/// A text in a style.
pub open spec fn styled(s: Seq<char>, st: TextStyle) -> StyledModel {
    StyledModel { style_text: Some(st), ..plain(s) }
}

/// The line that shows a header: indented, `| name:value`.
pub open spec fn header_line_model(k: Seq<char>, v: Seq<char>) -> Seq<StyledModel> {
    seq![plain(TAB_SPACE@), plain("| "@), plain(k), plain(":"@), plain(v)]
}

/// The lines that show headers, one per header, in order.
pub open spec fn header_lines_model(hs: Seq<(Seq<char>, Seq<char>)>) -> Seq<LineModel> {
    hs.map_values(|p: (Seq<char>, Seq<char>)| LineModel::Styled(header_line_model(p.0, p.1)))
}

/// The line that shows a header.
pub fn header_line<'a>(k: &'a str, v: &'a str) -> (r: Vec<StyledStr<'a>>)
    ensures
        styled_view(r@) == header_line_model(k@, v@),
{
    let r = vec![
        StyledStr::from(TAB_SPACE),
        StyledStr::from("| "),
        StyledStr::from(k),
        StyledStr::from(":"),
        StyledStr::from(v),
    ];
    assert(styled_view(r@) =~= header_line_model(k@, v@));
    r
}

/// The lines that show headers, one per header, in order.
pub fn header_lines<'a>(headers: &'a Vec<(String, String)>) -> (r: Vec<Line<'a>>)
    ensures
        lines_view(r@) == header_lines_model(pairs_of(headers@)),
{
    let ghost hs = pairs_of(headers@);
    let mut out: Vec<Line<'a>> = Vec::new();
    let mut i: usize = 0;
    while i < headers.len()
        invariant
            i <= headers.len(),
            hs == pairs_of(headers@),
            lines_view(out@) == header_lines_model(hs.take(i as int)),
        decreases headers.len() - i,
    {
        let (k, v) = &headers[i];
        let line = Line::Styled(header_line(k.as_str(), v.as_str()));
        let ghost before = out@;
        out.push(line);
        proof {
            assert(hs.take(i + 1) =~= hs.take(i as int).push(hs[i as int]));
            assert(lines_view(out@) =~= lines_view(before).push(line@));
            assert(header_lines_model(hs.take(i + 1)) =~= header_lines_model(hs.take(i as int)).push(
                LineModel::Styled(header_line_model(hs[i as int].0, hs[i as int].1)),
            ));
        }
        i = i + 1;
    }
    assert(hs.take(headers.len() as int) =~= hs);
    out
}

/// The title of a request: its method in bold and its URL in blue.
pub open spec fn request_title_model(method: METHODS, url: Seq<char>) -> Seq<StyledModel> {
    seq![
        plain(TAB_SPACE@),
        styled(method_name(method), TextStyle::Bold),
        plain(SINGLE_SPACE@),
        colored(url, Color::Blue),
    ]
}

/// The title of a request.
pub fn request_title<'a>(method: METHODS, url: &'a str) -> (r: Vec<StyledStr<'a>>)
    ensures
        styled_view(r@) == request_title_model(method, url@),
{
    let r = vec![
        StyledStr::from(TAB_SPACE),
        StyledStr::from(method.as_str()).with_text_style(TextStyle::Bold),
        StyledStr::from(SINGLE_SPACE),
        StyledStr::from(url).with_color_text(Color::Blue),
    ];
    assert(styled_view(r@) =~= request_title_model(method, url@));
    r
}

/// What is shown of a request before it is sent: its title and headers
/// between two rules.
pub open spec fn request_preview_model(
    method: METHODS,
    url: Seq<char>,
    hs: Seq<(Seq<char>, Seq<char>)>,
) -> Seq<LineModel> {
    seq![LineModel::Text(BREAK_LINE@), LineModel::Styled(request_title_model(method, url))]
        + header_lines_model(hs) + seq![LineModel::Text(BREAK_LINE@)]
}

/// What is shown of a request before it is sent.
pub fn request_preview<'a>(method: METHODS, url: &'a str, headers: &'a Vec<(String, String)>) -> (r:
    Vec<Line<'a>>)
    ensures
        lines_view(r@) == request_preview_model(method, url@, pairs_of(headers@)),
{
    let mut out: Vec<Line<'a>> = Vec::new();
    out.push(Line::Text(BREAK_LINE));
    out.push(Line::Styled(request_title(method, url)));
    let ghost head = out@;
    let mut hl = header_lines(headers);
    let ghost middle = hl@;
    out.append(&mut hl);
    let last = Line::Text(BREAK_LINE);
    out.push(last);
    proof {
        assert(out@ =~= head + middle + seq![last]);
        assert(lines_view(out@) =~= lines_view(head) + lines_view(middle) + seq![last@]);
    }
    out
}

/// What is shown where a request could not be sent: a red notice, the
/// error's message, a rule.
pub open spec fn error_report_model(message: Seq<char>) -> Seq<LineModel> {
    seq![
        LineModel::Styled(seq![plain(TAB_SPACE@), colored("Error Requesting..."@, Color::Red)]),
        LineModel::Text(message),
        LineModel::Text(BREAK_LINE@),
    ]
}

/// What is shown where a request could not be sent.
pub fn error_report<'a>(message: &'a str) -> (r: Vec<Line<'a>>)
    ensures
        lines_view(r@) == error_report_model(message@),
{
    let notice = vec![
        StyledStr::from(TAB_SPACE),
        StyledStr::from("Error Requesting...").with_color_text(Color::Red),
    ];
    let r = vec![Line::Styled(notice), Line::Text(message), Line::Text(BREAK_LINE)];
    assert(styled_view(notice@) =~= seq![
        plain(TAB_SPACE@),
        colored("Error Requesting..."@, Color::Red),
    ]);
    assert(lines_view(r@) =~= error_report_model(message@));
    r
}

/// The character of a decimal digit.
pub open spec fn digit_char(d: nat) -> char {
    (48 + d) as char
}

/// The decimal digits of a number, most significant first, without
/// leading zeros.
pub open spec fn decimal_digits(n: nat) -> Seq<char>
    decreases n,
{
    if n < 10 {
        seq![digit_char(n)]
    } else {
        decimal_digits(n / 10).push(digit_char(n % 10))
    }
}

/// The text of a decimal digit.
fn digit_text(d: u64) -> (r: &'static str)
    requires
        d < 10,
    ensures
        r@ == seq![digit_char(d as nat)],
{
    proof {
        reveal_strlit("0");
        reveal_strlit("1");
        reveal_strlit("2");
        reveal_strlit("3");
        reveal_strlit("4");
        reveal_strlit("5");
        reveal_strlit("6");
        reveal_strlit("7");
        reveal_strlit("8");
        reveal_strlit("9");
    }
    if d == 0 {
        "0"
    } else if d == 1 {
        "1"
    } else if d == 2 {
        "2"
    } else if d == 3 {
        "3"
    } else if d == 4 {
        "4"
    } else if d == 5 {
        "5"
    } else if d == 6 {
        "6"
    } else if d == 7 {
        "7"
    } else if d == 8 {
        "8"
    } else {
        "9"
    }
}

/// The decimal text of a number.
pub fn decimal(n: u64) -> (r: String)
    ensures
        r@ == decimal_digits(n as nat),
    decreases n,
{
    if n < 10 {
        owned(digit_text(n))
    } else {
        let mut r = decimal(n / 10);
        r.append(digit_text(n % 10));
        r
    }
}

/// The text that follows a status code: its message in brackets.
pub open spec fn status_message_text_model(message: Seq<char>) -> Seq<char> {
    " ("@ + message + ")"@
}

/// The text that follows a status code.
pub fn status_message_text(message: &str) -> (r: String)
    ensures
        r@ == status_message_text_model(message@),
{
    let mut r = owned(" (");
    r.append(message);
    r.append(")");
    r
}

/// The text of the time a response took, in milliseconds.
pub open spec fn elapsed_text_model(ms: nat) -> Seq<char> {
    " "@ + decimal_digits(ms) + " MS "@
}

/// The text of the time a response took.
pub fn elapsed_text(ms: u64) -> (r: String)
    ensures
        r@ == elapsed_text_model(ms as nat),
{
    let mut r = owned(" ");
    let d = decimal(ms);
    r.append(d.as_str());
    r.append(" MS ");
    r
}

/// The title of a response: its status code and the code's message.
pub open spec fn status_title_model(status: Seq<char>, message: Seq<char>) -> Seq<StyledModel> {
    seq![
        plain(TAB_SPACE@),
        styled("STATUS: "@, TextStyle::Bold),
        plain(status),
        plain(message),
    ]
}

/// The title of a response.
pub fn status_title<'a>(status: &'a str, message: &'a str) -> (r: Vec<StyledStr<'a>>)
    ensures
        styled_view(r@) == status_title_model(status@, message@),
{
    let r = vec![
        StyledStr::from(TAB_SPACE),
        StyledStr::from("STATUS: ").with_text_style(TextStyle::Bold),
        StyledStr::from(status),
        StyledStr::from(message),
    ];
    assert(styled_view(r@) =~= status_title_model(status@, message@));
    r
}

/// The title of a response followed by the time it took.
pub open spec fn timed_status_title_model(
    status: Seq<char>,
    message: Seq<char>,
    elapsed: Seq<char>,
) -> Seq<StyledModel> {
    status_title_model(status, message) + seq![plain("    "@), plain(elapsed)]
}

/// The title of a response followed by the time it took.
pub fn timed_status_title<'a>(status: &'a str, message: &'a str, elapsed: &'a str) -> (r: Vec<
    StyledStr<'a>,
>)
    ensures
        styled_view(r@) == timed_status_title_model(status@, message@, elapsed@),
{
    let mut r = status_title(status, message);
    let ghost before = r@;
    let gap = StyledStr::from("    ");
    let time = StyledStr::from(elapsed);
    r.push(gap);
    r.push(time);
    assert(styled_view(r@) =~= styled_view(before) + seq![gap@, time@]);
    r
}

/// What is shown of a response besides its body: its title, then its
/// headers between two inner rules.
pub open spec fn response_summary_model(
    title: Seq<StyledModel>,
    hs: Seq<(Seq<char>, Seq<char>)>,
) -> Seq<LineModel> {
    seq![LineModel::Styled(title), LineModel::Text(BREAK_LINE_WITH_GAP@)] + header_lines_model(hs)
        + seq![LineModel::Text(BREAK_LINE_WITH_GAP@)]
}

/// What is shown of a response besides its body.
pub fn response_summary<'a>(title: Vec<StyledStr<'a>>, headers: &'a Vec<(String, String)>) -> (r:
    Vec<Line<'a>>)
    ensures
        lines_view(r@) == response_summary_model(styled_view(title@), pairs_of(headers@)),
{
    let mut out: Vec<Line<'a>> = Vec::new();
    out.push(Line::Styled(title));
    out.push(Line::Text(BREAK_LINE_WITH_GAP));
    let ghost head = out@;
    let mut hl = header_lines(headers);
    let ghost middle = hl@;
    out.append(&mut hl);
    let last = Line::Text(BREAK_LINE_WITH_GAP);
    out.push(last);
    proof {
        assert(out@ =~= head + middle + seq![last]);
        assert(lines_view(out@) =~= lines_view(head) + lines_view(middle) + seq![last@]);
    }
    out
}

} // verus!
