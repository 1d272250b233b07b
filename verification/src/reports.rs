use vstd::prelude::*;

use crate::output::{
    decimal, decimal_digits, elapsed_text, elapsed_text_model, error_report, error_report_model,
    lines_view, response_summary, response_summary_model, status_message_text,
    status_message_text_model, status_title, status_title_model, timed_status_title,
    timed_status_title_model, Line, LineModel,
};
use crate::style::styled_view;
use crate::url::pairs_of;

verus! {

/// A response of the web client.
#[derive(Debug, PartialEq, Eq)]
pub struct Response {
    pub status: u16,
    pub status_message: String,
    pub response_time_ms: u64,
    pub headers: Vec<(String, String)>,
    pub body: String,
}

/// The texts of a response's title: its status code, the code's message in
/// brackets, the time it took.
pub struct StatusTexts {
    pub status: String,
    pub message: String,
    pub elapsed: String,
}

/// The texts of the title of an answer; empty where the request failed.
pub fn status_texts(outcome: &Result<Response, String>) -> (t: StatusTexts)
    ensures
        outcome matches Ok(r) ==> t.status@ == decimal_digits(r.status as nat) && t.message@
            == status_message_text_model(r.status_message@) && t.elapsed@ == elapsed_text_model(
            r.response_time_ms as nat,
        ),
        outcome is Err ==> t.status@.len() == 0 && t.message@.len() == 0 && t.elapsed@.len()
            == 0,
{
    match outcome {
        Ok(r) => StatusTexts {
            status: decimal(r.status as u64),
            message: status_message_text(r.status_message.as_str()),
            elapsed: elapsed_text(r.response_time_ms),
        },
        Err(_) => StatusTexts { status: String::new(), message: String::new(), elapsed: String::new() },
    }
}

/// What the answer to a request shows, by writer: the summary, the body,
/// the errors.
pub struct ResponseReport<'a> {
    pub metadata: Vec<Line<'a>>,
    pub response: Vec<Line<'a>>,
    pub errors: Vec<Line<'a>>,
}

/// The title of an answer, with the time it took where `timed`.
pub open spec fn answer_title_model(t: StatusTexts, timed: bool) -> Seq<crate::style::StyledModel> {
    if timed {
        timed_status_title_model(t.status@, t.message@, t.elapsed@)
    } else {
        status_title_model(t.status@, t.message@)
    }
}

/// What the answer to a request shows: a failed request shows its error
/// and nothing else; an answered one shows its title and headers as the
/// summary and its body as the response.
pub fn report_response<'a>(
    outcome: &'a Result<Response, String>,
    texts: &'a StatusTexts,
    timed: bool,
) -> (r: ResponseReport<'a>)
    ensures
        match outcome {
            Err(m) => lines_view(r.errors@) == error_report_model(m@) && r.metadata@.len() == 0
                && r.response@.len() == 0,
            Ok(resp) => r.errors@.len() == 0 && lines_view(r.metadata@) == response_summary_model(
                answer_title_model(*texts, timed),
                pairs_of(resp.headers@),
            ) && lines_view(r.response@) == seq![LineModel::Text(resp.body@)],
        },
{
    match outcome {
        Err(message) => ResponseReport {
            metadata: Vec::new(),
            response: Vec::new(),
            errors: error_report(message.as_str()),
        },
        Ok(resp) => {
            let title = if timed {
                timed_status_title(texts.status.as_str(), texts.message.as_str(), texts.elapsed.as_str())
            } else {
                status_title(texts.status.as_str(), texts.message.as_str())
            };
            let metadata = response_summary(title, &resp.headers);
            let response = vec![Line::Text(resp.body.as_str())];
            assert(lines_view(response@) =~= seq![LineModel::Text(resp.body@)]);
            ResponseReport { metadata, response, errors: Vec::new() }
        },
    }
}

} // verus!
