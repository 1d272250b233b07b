use vstd::prelude::*;

use crate::clap_parser::AppCommand;
use crate::cli_commands::BasicRequestExecutor;
use crate::executors::{CrosstermCliWriter, Stream};
use crate::output::{colored, lines_view, Line, LineModel, BREAK_LINE};
use crate::style::{plain, styled_view, Color, StyledStr};
use crate::text::owned;

verus! {

broadcast use vstd::string::group_string_axioms;

/// What is shown before a saved request is printed.
pub open spec fn inspect_heading_model(name: Seq<char>) -> Seq<LineModel> {
    seq![
        LineModel::Text(BREAK_LINE@),
        LineModel::Styled(seq![plain(" Request data of "@), colored(name, Color::Yellow)]),
        LineModel::Text(BREAK_LINE@),
    ]
}

/// What is shown before a saved request is printed.
pub fn inspect_heading<'a>(name: &'a str) -> (r: Vec<Line<'a>>)
    ensures
        lines_view(r@) == inspect_heading_model(name@),
{
    let title = vec![
        StyledStr::from(" Request data of "),
        StyledStr::from(name).with_color_text(Color::Yellow),
    ];
    assert(styled_view(title@) =~= seq![plain(" Request data of "@), colored(name@, Color::Yellow)]);
    let r = vec![Line::Text(BREAK_LINE), Line::Styled(title), Line::Text(BREAK_LINE)];
    assert(lines_view(r@) =~= inspect_heading_model(name@));
    r
}

/// What is shown before a saved request is removed.
pub open spec fn removal_heading_model(name: Seq<char>) -> Seq<LineModel> {
    seq![
        LineModel::Text(BREAK_LINE@),
        LineModel::Styled(seq![colored(" Removing: "@, Color::Red), colored(name, Color::Yellow)]),
        LineModel::Text(BREAK_LINE@),
    ]
}

/// What is shown before a saved request is removed.
pub fn removal_heading<'a>(name: &'a str) -> (r: Vec<Line<'a>>)
    ensures
        lines_view(r@) == removal_heading_model(name@),
{
    let title = vec![
        StyledStr::from(" Removing: ").with_color_text(Color::Red),
        StyledStr::from(name).with_color_text(Color::Yellow),
    ];
    assert(styled_view(title@) =~= seq![
        colored(" Removing: "@, Color::Red),
        colored(name@, Color::Yellow),
    ]);
    let r = vec![Line::Text(BREAK_LINE), Line::Styled(title), Line::Text(BREAK_LINE)];
    assert(lines_view(r@) =~= removal_heading_model(name@));
    r
}

/// What is shown before a saved request is renamed.
pub open spec fn rename_heading_model(name: Seq<char>, new_name: Seq<char>) -> Seq<LineModel> {
    seq![
        LineModel::Text(BREAK_LINE@),
        LineModel::Styled(
            seq![
                colored(" Renaming from: "@, Color::Red),
                colored(name, Color::Yellow),
                colored(" to: "@, Color::Red),
                colored(new_name, Color::Yellow),
            ],
        ),
        LineModel::Text(BREAK_LINE@),
    ]
}

/// What is shown before a saved request is renamed.
pub fn rename_heading<'a>(name: &'a str, new_name: &'a str) -> (r: Vec<Line<'a>>)
    ensures
        lines_view(r@) == rename_heading_model(name@, new_name@),
{
    let title = vec![
        StyledStr::from(" Renaming from: ").with_color_text(Color::Red),
        StyledStr::from(name).with_color_text(Color::Yellow),
        StyledStr::from(" to: ").with_color_text(Color::Red),
        StyledStr::from(new_name).with_color_text(Color::Yellow),
    ];
    assert(styled_view(title@) =~= seq![
        colored(" Renaming from: "@, Color::Red),
        colored(name@, Color::Yellow),
        colored(" to: "@, Color::Red),
        colored(new_name@, Color::Yellow),
    ]);
    let r = vec![Line::Text(BREAK_LINE), Line::Styled(title), Line::Text(BREAK_LINE)];
    assert(lines_view(r@) =~= rename_heading_model(name@, new_name@));
    r
}

/// Whether a renaming goes ahead: where it has to be confirmed, only once
/// the user confirmed it.
pub open spec fn rename_goes_ahead_spec(has_to_confirm: bool, confirmed: bool) -> bool {
    !has_to_confirm || confirmed
}

/// Whether a renaming goes ahead.
pub fn rename_goes_ahead(has_to_confirm: bool, confirmed: bool) -> (r: bool)
    ensures
        r == rename_goes_ahead_spec(has_to_confirm, confirmed),
{
    !has_to_confirm || confirmed
}

/// What is shown when request data is saved under a name.
pub open spec fn saving_heading_model(name: Seq<char>) -> Seq<LineModel> {
    seq![
        LineModel::Text(BREAK_LINE@),
        LineModel::Styled(seq![colored(" Saving"@, Color::Yellow)]),
        LineModel::Styled(seq![plain(" -> "@), colored(name, Color::Blue)]),
    ]
}

/// What is shown when request data is saved under a name.
pub fn saving_heading<'a>(name: &'a str) -> (r: Vec<Line<'a>>)
    ensures
        lines_view(r@) == saving_heading_model(name@),
{
    let first = vec![StyledStr::from(" Saving").with_color_text(Color::Yellow)];
    let second = vec![StyledStr::from(" -> "), StyledStr::from(name).with_color_text(Color::Blue)];
    assert(styled_view(first@) =~= seq![colored(" Saving"@, Color::Yellow)]);
    assert(styled_view(second@) =~= seq![plain(" -> "@), colored(name@, Color::Blue)]);
    let r = vec![Line::Text(BREAK_LINE), Line::Styled(first), Line::Styled(second)];
    assert(lines_view(r@) =~= saving_heading_model(name@));
    r
}

/// What is shown when a saved request is sent.
pub open spec fn submit_saved_heading_model(name: Seq<char>) -> Seq<LineModel> {
    seq![
        LineModel::Text(BREAK_LINE@),
        LineModel::Styled(seq![colored(" Submit saved request"@, Color::Blue)]),
        LineModel::Styled(seq![plain(" | -> "@), plain(name)]),
    ]
}

/// What is shown when a saved request is sent.
pub fn submit_saved_heading<'a>(name: &'a str) -> (r: Vec<Line<'a>>)
    ensures
        lines_view(r@) == submit_saved_heading_model(name@),
{
    let first = vec![StyledStr::from(" Submit saved request").with_color_text(Color::Blue)];
    let second = vec![StyledStr::from(" | -> "), StyledStr::from(name)];
    assert(styled_view(first@) =~= seq![colored(" Submit saved request"@, Color::Blue)]);
    assert(styled_view(second@) =~= seq![plain(" | -> "@), plain(name@)]);
    let r = vec![Line::Text(BREAK_LINE), Line::Styled(first), Line::Styled(second)];
    assert(lines_view(r@) =~= submit_saved_heading_model(name@));
    r
}

/// The line that tells a change went through.
pub const OK_LINE: &'static str = " Ok ";

/// What is shown when request data is saved under a name: one line.
pub open spec fn saving_line_model(name: Seq<char>) -> Seq<LineModel> {
    seq![
        LineModel::Text(BREAK_LINE@),
        LineModel::Styled(
            seq![colored(" Saving "@, Color::Yellow), plain(" -> "@), colored(name, Color::Blue)],
        ),
    ]
}

/// What is shown when request data is saved under a name: one line.
pub fn saving_line<'a>(name: &'a str) -> (r: Vec<Line<'a>>)
    ensures
        lines_view(r@) == saving_line_model(name@),
{
    let line = vec![
        StyledStr::from(" Saving ").with_color_text(Color::Yellow),
        StyledStr::from(" -> "),
        StyledStr::from(name).with_color_text(Color::Blue),
    ];
    assert(styled_view(line@) =~= seq![
        colored(" Saving "@, Color::Yellow),
        plain(" -> "@),
        colored(name@, Color::Blue),
    ]);
    let r = vec![Line::Text(BREAK_LINE), Line::Styled(line)];
    assert(lines_view(r@) =~= saving_line_model(name@));
    r
}

/// The text that tells which saved request a new one is built on.
pub open spec fn base_saving_text_model(base: Seq<char>, name: Seq<char>) -> Seq<char> {
    " | "@ + base + " -> "@ + name
}

/// The text that tells which saved request a new one is built on.
pub fn base_saving_text(base: &str, name: &str) -> (r: String)
    ensures
        r@ == base_saving_text_model(base@, name@),
{
    let mut r = owned(" | ");
    r.append(base);
    r.append(" -> ");
    r.append(name);
    r
}

/// What is shown when request data is saved on top of a saved request.
pub open spec fn base_saving_heading_model(text: Seq<char>) -> Seq<LineModel> {
    seq![
        LineModel::Text(BREAK_LINE@),
        LineModel::Styled(seq![colored(" Saving"@, Color::Blue)]),
        LineModel::Styled(seq![plain(text)]),
    ]
}

/// What is shown when request data is saved on top of a saved request,
/// `text` being the `base_saving_text` of the two names.
pub fn base_saving_heading<'a>(text: &'a str) -> (r: Vec<Line<'a>>)
    ensures
        lines_view(r@) == base_saving_heading_model(text@),
{
    let first = vec![StyledStr::from(" Saving").with_color_text(Color::Blue)];
    let second = vec![StyledStr::from(text)];
    assert(styled_view(first@) =~= seq![colored(" Saving"@, Color::Blue)]);
    assert(styled_view(second@) =~= seq![plain(text@)]);
    let r = vec![Line::Text(BREAK_LINE), Line::Styled(first), Line::Styled(second)];
    assert(lines_view(r@) =~= base_saving_heading_model(text@));
    r
}

/// The number of border characters on each side of a text centered in a
/// window of `rows` columns, one column kept free. The window must be
/// wide enough to leave one.
pub fn centered_border_size(rows: u16, text_len: u16) -> (r: u16)
    requires
        rows / 2 >= text_len / 2 + 1,
    ensures
        r == rows / 2 - text_len / 2 - 1,
{
    rows / 2 - text_len / 2 - 1
}

/// The executor of a command given by the arguments: a request whose
/// results go to stdout and notices to stderr.
pub fn get_runner_of_command(command: AppCommand) -> (r: BasicRequestExecutor)
    ensures
        command matches AppCommand::BasicRequest { req } && r.request == req,
        r.writer_stdout.stream == Stream::Stdout,
        r.writer_stderr.stream == Stream::Stderr,
{
    match command {
        AppCommand::BasicRequest { req } => BasicRequestExecutor {
            request: req,
            writer_stdout: CrosstermCliWriter::from(Stream::Stdout),
            writer_stderr: CrosstermCliWriter::from(Stream::Stderr),
        },
    }
}

} // verus!
