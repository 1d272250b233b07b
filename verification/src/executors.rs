use vstd::prelude::*;

use crate::cli_input::ViewOptions;
use crate::commands::ViewCommandChoice;
use crate::request::{PartialRequestData, RequestData};

verus! {

/// The stream a writer sends its lines to.
#[derive(Debug, Clone, Copy, PartialEq, Eq, Structural)]
pub enum Stream {
    Stdout,
    Stderr,
    /// Lines sent here are dropped.
    Empty,
}

/// A writer of lines to one of the program's streams.
#[derive(Debug, Clone, Copy, PartialEq, Eq, Structural)]
pub struct CrosstermCliWriter {
    pub stream: Stream,
}

impl CrosstermCliWriter {
    /// A writer to a stream.
    pub fn from(stream: Stream) -> (r: CrosstermCliWriter)
        ensures
            r.stream == stream,
    {
        CrosstermCliWriter { stream }
    }
}

/// Where the progress spinner of a request is drawn.
#[derive(Debug, Clone, Copy, PartialEq, Eq, Structural)]
pub enum ProgressDrawTarget {
    Stderr,
    Hidden,
}

/// Sends a request and shows its response.
#[derive(Debug, PartialEq, Eq)]
pub struct BasicRequestExecutor {
    pub request: RequestData,
    pub progress_draw_target: ProgressDrawTarget,
    pub writer_metadata: CrosstermCliWriter,
    pub writer_response: CrosstermCliWriter,
    pub writer_stderr: CrosstermCliWriter,
}

/// Sends a saved request, with the data given on top, and shows its response.
#[derive(Debug, PartialEq, Eq)]
pub struct SubmitSavedRequestExecutor {
    pub request_name: String,
    pub input_request_data: PartialRequestData,
    pub progress_draw_target: ProgressDrawTarget,
    pub writer_metadata: CrosstermCliWriter,
    pub writer_response: CrosstermCliWriter,
    pub writer_stderr: CrosstermCliWriter,
}

/// Saves a request under a name.
#[derive(Debug, PartialEq, Eq)]
pub struct SaveNewRequestExecutor {
    pub request_name: String,
    pub request_data: RequestData,
    pub writer: CrosstermCliWriter,
}

/// Saves request data under a name, on top of a saved request where one is named.
#[derive(Debug, PartialEq, Eq)]
pub struct SaveRequestWithBaseRequestExecutor {
    pub request_name: String,
    pub base_request_name: Option<String>,
    pub input_request_data: PartialRequestData,
    pub writer: CrosstermCliWriter,
}

/// Lists the names of the saved requests.
#[derive(Debug, PartialEq, Eq)]
pub struct ShowListAllRequestExecutor {
    pub writer: CrosstermCliWriter,
}

/// Shows a saved request.
#[derive(Debug, PartialEq, Eq)]
pub struct InspectRequestExecutor {
    pub request_name: String,
    pub writer: CrosstermCliWriter,
}

/// Removes a saved request.
#[derive(Debug, PartialEq, Eq)]
pub struct RemoveRequestExecutor {
    pub request_name: String,
    pub writer: CrosstermCliWriter,
}

/// Renames a saved request, asking first where it has to.
#[derive(Debug, PartialEq, Eq)]
pub struct RenameRequestExecutor {
    pub request_name: String,
    pub new_name: String,
    pub has_to_confirm: bool,
    pub writer: CrosstermCliWriter,
}

/// The executor of a command.
#[derive(Debug, PartialEq, Eq)]
pub enum ViewExecutor {
    SubmitRequest(BasicRequestExecutor),
    SubmitSavedRequest(SubmitSavedRequestExecutor),
    SaveNewRequest(SaveNewRequestExecutor),
    SaveRequestWithBaseRequest(SaveRequestWithBaseRequestExecutor),
    ShowRequests(ShowListAllRequestExecutor),
    InspectRequest(InspectRequestExecutor),
    RemoveSavedRequest(RemoveRequestExecutor),
    RenameSavedRequest(RenameRequestExecutor),
}

/// Where a request's spinner, request summary, response body and errors go:
/// with `print_body_only` only the body reaches stdout, with
/// `suppress_output` only errors are shown, else everything is.
pub open spec fn request_outputs(vo: ViewOptions) -> (ProgressDrawTarget, Stream, Stream, Stream) {
    if vo.print_body_only {
        (ProgressDrawTarget::Stderr, Stream::Empty, Stream::Stdout, Stream::Stderr)
    } else if vo.suppress_output {
        (ProgressDrawTarget::Hidden, Stream::Empty, Stream::Empty, Stream::Stderr)
    } else {
        (ProgressDrawTarget::Stderr, Stream::Stderr, Stream::Stdout, Stream::Stderr)
    }
}

/// Where the notices of saving go: nowhere with `suppress_output`, else stderr.
pub open spec fn notice_stream(vo: ViewOptions) -> Stream {
    if vo.suppress_output {
        Stream::Empty
    } else {
        Stream::Stderr
    }
}

/// Where the report of a change to the saved requests goes: nowhere with
/// `suppress_output`, else stdout.
pub open spec fn report_stream(vo: ViewOptions) -> Stream {
    if vo.suppress_output {
        Stream::Empty
    } else {
        Stream::Stdout
    }
}

/// The writers and spinner target of a request, as the view options ask.
fn request_writers(view_options: &ViewOptions) -> (r: (
    ProgressDrawTarget,
    CrosstermCliWriter,
    CrosstermCliWriter,
    CrosstermCliWriter,
))
    ensures
        (r.0, r.1.stream, r.2.stream, r.3.stream) == request_outputs(*view_options),
{
    if view_options.print_body_only {
        (
            ProgressDrawTarget::Stderr,
            CrosstermCliWriter::from(Stream::Empty),
            CrosstermCliWriter::from(Stream::Stdout),
            CrosstermCliWriter::from(Stream::Stderr),
        )
    } else if view_options.suppress_output {
        (
            ProgressDrawTarget::Hidden,
            CrosstermCliWriter::from(Stream::Empty),
            CrosstermCliWriter::from(Stream::Empty),
            CrosstermCliWriter::from(Stream::Stderr),
        )
    } else {
        (
            ProgressDrawTarget::Stderr,
            CrosstermCliWriter::from(Stream::Stderr),
            CrosstermCliWriter::from(Stream::Stdout),
            CrosstermCliWriter::from(Stream::Stderr),
        )
    }
}

impl BasicRequestExecutor {
    /// The executor of a request, its output routed as the view options ask.
    pub fn new(request: RequestData, view_options: &ViewOptions) -> (r: Self)
        ensures
            r.request == request,
            (r.progress_draw_target, r.writer_metadata.stream, r.writer_response.stream,
            r.writer_stderr.stream) == request_outputs(*view_options),
    {
        let (progress_draw_target, writer_metadata, writer_response, writer_stderr) =
            request_writers(view_options);
        BasicRequestExecutor {
            request,
            progress_draw_target,
            writer_metadata,
            writer_response,
            writer_stderr,
        }
    }
}

impl SubmitSavedRequestExecutor {
    /// The executor of a saved request, its output routed as for any request.
    pub fn new(
        request_name: String,
        input_request_data: PartialRequestData,
        view_options: &ViewOptions,
    ) -> (r: Self)
        ensures
            r.request_name == request_name,
            r.input_request_data == input_request_data,
            (r.progress_draw_target, r.writer_metadata.stream, r.writer_response.stream,
            r.writer_stderr.stream) == request_outputs(*view_options),
    {
        let (progress_draw_target, writer_metadata, writer_response, writer_stderr) =
            request_writers(view_options);
        SubmitSavedRequestExecutor {
            request_name,
            input_request_data,
            progress_draw_target,
            writer_metadata,
            writer_response,
            writer_stderr,
        }
    }
}

impl SaveNewRequestExecutor {
    /// The executor of a save, its notices silenced with `suppress_output`.
    pub fn new(request_name: String, request_data: RequestData, view_options: &ViewOptions) -> (r:
        Self)
        ensures
            r.request_name == request_name,
            r.request_data == request_data,
            r.writer.stream == notice_stream(*view_options),
    {
        let stream = if view_options.suppress_output {
            Stream::Empty
        } else {
            Stream::Stderr
        };
        SaveNewRequestExecutor { request_name, request_data, writer: CrosstermCliWriter::from(stream) }
    }
}

impl SaveRequestWithBaseRequestExecutor {
    /// The executor of a save on top of a saved request, its notices
    /// silenced with `suppress_output`.
    pub fn new(
        request_name: String,
        base_request_name: Option<String>,
        request_data: PartialRequestData,
        view_options: &ViewOptions,
    ) -> (r: Self)
        ensures
            r.request_name == request_name,
            r.base_request_name == base_request_name,
            r.input_request_data == request_data,
            r.writer.stream == notice_stream(*view_options),
    {
        let stream = if view_options.suppress_output {
            Stream::Empty
        } else {
            Stream::Stderr
        };
        SaveRequestWithBaseRequestExecutor {
            request_name,
            base_request_name,
            input_request_data: request_data,
            writer: CrosstermCliWriter::from(stream),
        }
    }
}

impl ShowListAllRequestExecutor {
    /// The executor of the listing, which writes to stdout.
    pub fn new() -> (r: Self)
        ensures
            r.writer.stream == Stream::Stdout,
    {
        ShowListAllRequestExecutor { writer: CrosstermCliWriter::from(Stream::Stdout) }
    }
}

impl InspectRequestExecutor {
    /// The executor of an inspection, which writes to stdout.
    pub fn new(request_name: String) -> (r: Self)
        ensures
            r.request_name == request_name,
            r.writer.stream == Stream::Stdout,
    {
        InspectRequestExecutor { request_name, writer: CrosstermCliWriter::from(Stream::Stdout) }
    }
}

impl RemoveRequestExecutor {
    /// The executor of a removal, its report silenced with `suppress_output`.
    pub fn new(request_name: String, view_options: &ViewOptions) -> (r: Self)
        ensures
            r.request_name == request_name,
            r.writer.stream == report_stream(*view_options),
    {
        let stream = if view_options.suppress_output {
            Stream::Empty
        } else {
            Stream::Stdout
        };
        RemoveRequestExecutor { request_name, writer: CrosstermCliWriter::from(stream) }
    }
}

impl RenameRequestExecutor {
    /// The executor of a renaming, its report silenced with `suppress_output`.
    pub fn new(
        request_name: String,
        new_name: String,
        has_to_confirm: bool,
        view_options: &ViewOptions,
    ) -> (r: Self)
        ensures
            r.request_name == request_name,
            r.new_name == new_name,
            r.has_to_confirm == has_to_confirm,
            r.writer.stream == report_stream(*view_options),
    {
        let stream = if view_options.suppress_output {
            Stream::Empty
        } else {
            Stream::Stdout
        };
        RenameRequestExecutor {
            request_name,
            new_name,
            has_to_confirm,
            writer: CrosstermCliWriter::from(stream),
        }
    }
}

/// Whether an executor is the one a command gets.
pub open spec fn executor_of(c: ViewCommandChoice, e: ViewExecutor) -> bool {
    match c {
        ViewCommandChoice::SubmitRequest { request, view_options } => e matches ViewExecutor::SubmitRequest(x)
            && x.request == request && (x.progress_draw_target, x.writer_metadata.stream,
        x.writer_response.stream, x.writer_stderr.stream) == request_outputs(view_options),
        ViewCommandChoice::SubmitSavedRequest { request_name, request_data, view_options } => e matches ViewExecutor::SubmitSavedRequest(
            x,
        ) && x.request_name == request_name && x.input_request_data == request_data && (
        x.progress_draw_target, x.writer_metadata.stream, x.writer_response.stream,
        x.writer_stderr.stream) == request_outputs(view_options),
        ViewCommandChoice::SaveNewRequest { request_name, request_data, view_options } => e matches ViewExecutor::SaveNewRequest(
            x,
        ) && x.request_name == request_name && x.request_data == request_data && x.writer.stream
            == notice_stream(view_options),
        ViewCommandChoice::SaveRequestWithBaseRequest {
            request_name,
            base_request_name,
            request_data,
            view_options,
        } => e matches ViewExecutor::SaveRequestWithBaseRequest(x) && x.request_name == request_name
            && x.base_request_name == base_request_name && x.input_request_data == request_data
            && x.writer.stream == notice_stream(view_options),
        ViewCommandChoice::ShowRequests => e matches ViewExecutor::ShowRequests(x)
            && x.writer.stream == Stream::Stdout,
        ViewCommandChoice::InspectRequest { request_name } => e matches ViewExecutor::InspectRequest(
            x,
        ) && x.request_name == request_name && x.writer.stream == Stream::Stdout,
        ViewCommandChoice::RemoveSavedRequest { request_name, view_options } => e matches ViewExecutor::RemoveSavedRequest(
            x,
        ) && x.request_name == request_name && x.writer.stream == report_stream(view_options),
        ViewCommandChoice::RenameSavedRequest {
            request_name,
            new_name,
            has_to_confirm,
            view_options,
        } => e matches ViewExecutor::RenameSavedRequest(x) && x.request_name == request_name
            && x.new_name == new_name && x.has_to_confirm == has_to_confirm && x.writer.stream
            == report_stream(view_options),
    }
}

impl ViewCommandChoice {
    /// The executor that runs a command, with its output routed as the
    /// command's view options ask.
    pub fn get_executor(self) -> (r: ViewExecutor)
        ensures
            executor_of(self, r),
    {
        match self {
            ViewCommandChoice::SubmitRequest { request, view_options } => ViewExecutor::SubmitRequest(
                BasicRequestExecutor::new(request, &view_options),
            ),
            ViewCommandChoice::SubmitSavedRequest { request_name, request_data, view_options } => {
                ViewExecutor::SubmitSavedRequest(
                    SubmitSavedRequestExecutor::new(request_name, request_data, &view_options),
                )
            },
            ViewCommandChoice::SaveNewRequest { request_name, request_data, view_options } => {
                ViewExecutor::SaveNewRequest(
                    SaveNewRequestExecutor::new(request_name, request_data, &view_options),
                )
            },
            ViewCommandChoice::SaveRequestWithBaseRequest {
                request_name,
                base_request_name,
                request_data,
                view_options,
            } => ViewExecutor::SaveRequestWithBaseRequest(
                SaveRequestWithBaseRequestExecutor::new(
                    request_name,
                    base_request_name,
                    request_data,
                    &view_options,
                ),
            ),
            ViewCommandChoice::ShowRequests => ViewExecutor::ShowRequests(
                ShowListAllRequestExecutor::new(),
            ),
            ViewCommandChoice::InspectRequest { request_name } => ViewExecutor::InspectRequest(
                InspectRequestExecutor::new(request_name),
            ),
            ViewCommandChoice::RemoveSavedRequest { request_name, view_options } => {
                ViewExecutor::RemoveSavedRequest(RemoveRequestExecutor::new(request_name, &view_options))
            },
            ViewCommandChoice::RenameSavedRequest {
                request_name,
                new_name,
                has_to_confirm,
                view_options,
            } => ViewExecutor::RenameSavedRequest(
                RenameRequestExecutor::new(request_name, new_name, has_to_confirm, &view_options),
            ),
        }
    }
}

/// Law: `print_body_only` sends the response body, and nothing but the
/// body, to stdout; `suppress_output` shows nothing but errors; a request's
/// errors are always shown.
pub proof fn lemma_request_outputs(vo: ViewOptions)
    ensures
        vo.print_body_only ==> request_outputs(vo).1 == Stream::Empty && request_outputs(vo).2
            == Stream::Stdout,
        !vo.print_body_only && vo.suppress_output ==> request_outputs(vo).1 == Stream::Empty
            && request_outputs(vo).2 == Stream::Empty && request_outputs(vo).0
            == ProgressDrawTarget::Hidden,
        request_outputs(vo).3 == Stream::Stderr,
{
}

} // verus!
