use vstd::prelude::*;

use crate::executors::{CrosstermCliWriter, Stream};
use crate::methods::METHODS;
use crate::request::{
    body_of, copy_pairs, BodyModel, BodyPayload, PartialModel, PartialRequestData, RequestData,
    RequestModel,
};
use crate::text::owned;
use crate::url::{pairs_of, url_of, Url};

verus! {

broadcast use vstd::string::group_string_axioms;

/// Request data given on the command line, every part optional, the URL
/// and body kept as written.
#[derive(Debug, PartialEq, Eq)]
pub struct OptionalRequestData {
    pub url: Option<String>,
    pub method: Option<METHODS>,
    pub headers: Option<Vec<(String, String)>>,
    pub body: Option<String>,
}

/// The model of optional request data.
pub struct OptionalModel {
    pub url: Option<Seq<char>>,
    pub method: Option<METHODS>,
    pub headers: Option<Seq<(Seq<char>, Seq<char>)>>,
    pub body: Option<Seq<char>>,
}

pub open spec fn opt_text(s: Option<String>) -> Option<Seq<char>> {
    match s {
        Some(s) => Some(s@),
        None => None,
    }
}

impl View for OptionalRequestData {
    type V = OptionalModel;

    open spec fn view(&self) -> OptionalModel {
        OptionalModel {
            url: opt_text(self.url),
            method: self.method,
            headers: match self.headers {
                Some(h) => Some(pairs_of(h@)),
                None => None,
            },
            body: opt_text(self.body),
        }
    }
}

/// The request that optional data stands for: its URL and body read from
/// their texts (empty where missing), `GET` and no headers where missing.
pub open spec fn optional_complete(d: OptionalModel) -> RequestModel {
    RequestModel {
        url: url_of(
            match d.url {
                Some(u) => u,
                None => Seq::empty(),
            },
        ),
        method: match d.method {
            Some(m) => m,
            None => METHODS::GET,
        },
        headers: match d.headers {
            Some(h) => h,
            None => Seq::empty(),
        },
        body: body_of(
            match d.body {
                Some(b) => b,
                None => Seq::empty(),
            },
        ),
    }
}

impl OptionalRequestData {
    /// Data with every part missing.
    pub fn default() -> (r: OptionalRequestData)
        ensures
            r@ == (OptionalModel { url: None, method: None, headers: None, body: None }),
    {
        OptionalRequestData { url: None, method: None, headers: None, body: None }
    }

    /// A copy of the data.
    pub fn duplicate(&self) -> (r: OptionalRequestData)
        ensures
            r@ == self@,
    {
        OptionalRequestData {
            url: self.url.clone(),
            method: self.method,
            headers: match &self.headers {
                Some(h) => Some(copy_pairs(h)),
                None => None,
            },
            body: self.body.clone(),
        }
    }

    /// The request that the data stands for.
    pub fn to_request_data(self) -> (r: RequestData)
        ensures
            r@ == optional_complete(self@),
            self@.body is None ==> r@.body == BodyModel::Raw(Seq::empty()),
    {
        proof {
            reveal_strlit("");
            assert(""@ =~= Seq::<char>::empty());
        }
        let url = match &self.url {
            Some(u) => Url::from_str(u.as_str()),
            None => Url::from_str(""),
        };
        let method = match self.method {
            Some(m) => m,
            None => METHODS::GET,
        };
        let headers = match self.headers {
            Some(h) => h,
            None => {
                let v: Vec<(String, String)> = Vec::new();
                assert(pairs_of(v@) =~= Seq::empty());
                v
            },
        };
        let body = match &self.body {
            Some(b) => BodyPayload::from_str(b.as_str()),
            None => BodyPayload::from_str(""),
        };
        RequestData { url, method, headers, body }
    }
}

/// The partial request data that optional data stands for: its URL and
/// body read from their texts.
pub open spec fn optional_partial(d: OptionalModel) -> PartialModel {
    PartialModel {
        url: match d.url {
            Some(u) => Some(url_of(u)),
            None => None,
        },
        method: d.method,
        headers: d.headers,
        body: match d.body {
            Some(b) => Some(body_of(b)),
            None => None,
        },
    }
}

impl OptionalRequestData {
    /// The partial request data that the data stands for.
    pub fn to_partial_request_data(self) -> (r: PartialRequestData)
        ensures
            r@ == optional_partial(self@),
    {
        PartialRequestData {
            url: match &self.url {
                Some(u) => Some(Url::from_str(u.as_str())),
                None => None,
            },
            method: self.method,
            headers: self.headers,
            body: match &self.body {
                Some(b) => Some(BodyPayload::from_str(b.as_str())),
                None => None,
            },
        }
    }
}

/// The commands that the command line asks for.
#[derive(Debug, PartialEq, Eq)]
pub enum CliCommandChoice {
    SubmitRequest { request: RequestData },
    SubmitSavedRequest { request_name: String },
    SubmitSavedRequestWithAdditionalData { request_name: String, request_data: OptionalRequestData },
    SaveRequest { request_name: String, request: OptionalRequestData },
    SaveRequestWithBaseRequest {
        request_name: String,
        base_request_name: Option<String>,
        request_data: OptionalRequestData,
    },
    RemoveSavedRequest { request_name: String },
    RenameSavedRequest { request_name: String, new_name: String },
    ShowRequests,
    InspectRequest { request_name: String },
}

/// The model of a command.
pub enum CliCommandModel {
    SubmitRequest { request: RequestModel },
    SubmitSavedRequest { request_name: Seq<char> },
    SubmitSavedRequestWithAdditionalData { request_name: Seq<char>, request_data: OptionalModel },
    SaveRequest { request_name: Seq<char>, request: OptionalModel },
    SaveRequestWithBaseRequest {
        request_name: Seq<char>,
        base_request_name: Option<Seq<char>>,
        request_data: OptionalModel,
    },
    RemoveSavedRequest { request_name: Seq<char> },
    RenameSavedRequest { request_name: Seq<char>, new_name: Seq<char> },
    ShowRequests,
    InspectRequest { request_name: Seq<char> },
}

impl View for CliCommandChoice {
    type V = CliCommandModel;

    open spec fn view(&self) -> CliCommandModel {
        match self {
            CliCommandChoice::SubmitRequest { request } => CliCommandModel::SubmitRequest {
                request: request@,
            },
            CliCommandChoice::SubmitSavedRequest { request_name } => {
                CliCommandModel::SubmitSavedRequest { request_name: request_name@ }
            },
            CliCommandChoice::SubmitSavedRequestWithAdditionalData { request_name, request_data } => {
                CliCommandModel::SubmitSavedRequestWithAdditionalData {
                    request_name: request_name@,
                    request_data: request_data@,
                }
            },
            CliCommandChoice::SaveRequest { request_name, request } => {
                CliCommandModel::SaveRequest { request_name: request_name@, request: request@ }
            },
            CliCommandChoice::SaveRequestWithBaseRequest {
                request_name,
                base_request_name,
                request_data,
            } => CliCommandModel::SaveRequestWithBaseRequest {
                request_name: request_name@,
                base_request_name: opt_text(*base_request_name),
                request_data: request_data@,
            },
            CliCommandChoice::RemoveSavedRequest { request_name } => {
                CliCommandModel::RemoveSavedRequest { request_name: request_name@ }
            },
            CliCommandChoice::RenameSavedRequest { request_name, new_name } => {
                CliCommandModel::RenameSavedRequest {
                    request_name: request_name@,
                    new_name: new_name@,
                }
            },
            CliCommandChoice::ShowRequests => CliCommandModel::ShowRequests,
            CliCommandChoice::InspectRequest { request_name } => CliCommandModel::InspectRequest {
                request_name: request_name@,
            },
        }
    }
}

/// The models of a list of commands.
pub open spec fn cli_commands_view(v: Seq<CliCommandChoice>) -> Seq<CliCommandModel> {
    v.map_values(|c: CliCommandChoice| c@)
}

/// Sends a request, its summary and errors to stderr and its body to stdout.
#[derive(Debug, PartialEq, Eq)]
pub struct BasicRequestExecutor {
    pub request: RequestData,
    pub writer_stdout: CrosstermCliWriter,
    pub writer_stderr: CrosstermCliWriter,
}

/// Sends a saved request with the data given on top.
#[derive(Debug, PartialEq, Eq)]
pub struct SubmitSavedRequestExecutor {
    pub request_name: String,
    pub request_data: OptionalRequestData,
    pub writer_stdout: CrosstermCliWriter,
    pub writer_stderr: CrosstermCliWriter,
}

/// Saves request data under a name.
#[derive(Debug, PartialEq, Eq)]
pub struct SaveRequestExecutor {
    pub request_name: String,
    pub request_data: OptionalRequestData,
    pub writer_stdout: CrosstermCliWriter,
    pub writer_stderr: CrosstermCliWriter,
}

/// Saves request data under a name, on top of a saved request where one is named.
#[derive(Debug, PartialEq, Eq)]
pub struct SaveRequestWithBaseRequestExecutor {
    pub request_name: String,
    pub base_request_name: Option<String>,
    pub request_data: OptionalRequestData,
    pub writer_stdout: CrosstermCliWriter,
    pub writer_stderr: CrosstermCliWriter,
}

/// Lists the names of the saved requests.
#[derive(Debug, PartialEq, Eq)]
pub struct ShowListAllRequestExecutor {
    pub writer: CrosstermCliWriter,
}

/// Shows a saved request.
#[derive(Debug, PartialEq, Eq)]
pub struct InspectRequestExecutor {
    pub request_name: String,
    pub writer: CrosstermCliWriter,
}

/// The executor of a command.
#[derive(Debug, PartialEq, Eq)]
pub enum CliExecutor {
    SubmitRequest(BasicRequestExecutor),
    SubmitSavedRequest(SubmitSavedRequestExecutor),
    SaveRequest(SaveRequestExecutor),
    SaveRequestWithBaseRequest(SaveRequestWithBaseRequestExecutor),
    ShowRequests(ShowListAllRequestExecutor),
    InspectRequest(InspectRequestExecutor),
}

/// Whether an executor is the one a command gets: it carries the command's
/// data, writes results to stdout and notices to stderr.
pub open spec fn cli_executor_of(c: CliCommandChoice, e: CliExecutor) -> bool {
    match c {
        CliCommandChoice::SubmitRequest { request } => e matches CliExecutor::SubmitRequest(x)
            && x.request == request && x.writer_stdout.stream == Stream::Stdout
            && x.writer_stderr.stream == Stream::Stderr,
        CliCommandChoice::SubmitSavedRequest { request_name } => e matches CliExecutor::SubmitSavedRequest(
            x,
        ) && x.request_name == request_name && x.request_data@ == (OptionalModel {
            url: None,
            method: None,
            headers: None,
            body: None,
        }) && x.writer_stdout.stream == Stream::Stdout && x.writer_stderr.stream == Stream::Stderr,
        CliCommandChoice::SubmitSavedRequestWithAdditionalData { request_name, request_data } => e matches CliExecutor::SubmitSavedRequest(
            x,
        ) && x.request_name == request_name && x.request_data == request_data
            && x.writer_stdout.stream == Stream::Stdout && x.writer_stderr.stream == Stream::Stderr,
        CliCommandChoice::SaveRequest { request_name, request } => e matches CliExecutor::SaveRequest(
            x,
        ) && x.request_name == request_name && x.request_data == request && x.writer_stdout.stream
            == Stream::Stdout && x.writer_stderr.stream == Stream::Stderr,
        CliCommandChoice::SaveRequestWithBaseRequest {
            request_name,
            base_request_name,
            request_data,
        } => e matches CliExecutor::SaveRequestWithBaseRequest(x) && x.request_name == request_name
            && x.base_request_name == base_request_name && x.request_data == request_data
            && x.writer_stdout.stream == Stream::Stdout && x.writer_stderr.stream == Stream::Stderr,
        CliCommandChoice::ShowRequests => e matches CliExecutor::ShowRequests(x)
            && x.writer.stream == Stream::Stdout,
        CliCommandChoice::InspectRequest { request_name } => e matches CliExecutor::InspectRequest(
            x,
        ) && x.request_name == request_name && x.writer.stream == Stream::Stdout,
        _ => false,
    }
}

/// The executor that runs a command. Renaming and removing have no
/// executor here.
pub fn get_executor_of_cli_command(command: CliCommandChoice) -> (r: CliExecutor)
    requires
        !(command is RemoveSavedRequest),
        !(command is RenameSavedRequest),
    ensures
        cli_executor_of(command, r),
{
    let writer_stdout = CrosstermCliWriter::from(Stream::Stdout);
    let writer_stderr = CrosstermCliWriter::from(Stream::Stderr);
    match command {
        CliCommandChoice::SubmitRequest { request } => CliExecutor::SubmitRequest(
            BasicRequestExecutor { request, writer_stdout, writer_stderr },
        ),
        CliCommandChoice::SubmitSavedRequest { request_name } => CliExecutor::SubmitSavedRequest(
            SubmitSavedRequestExecutor {
                request_name,
                request_data: OptionalRequestData::default(),
                writer_stdout,
                writer_stderr,
            },
        ),
        CliCommandChoice::SubmitSavedRequestWithAdditionalData { request_name, request_data } => {
            CliExecutor::SubmitSavedRequest(
                SubmitSavedRequestExecutor { request_name, request_data, writer_stdout, writer_stderr },
            )
        },
        CliCommandChoice::SaveRequest { request_name, request } => CliExecutor::SaveRequest(
            SaveRequestExecutor { request_name, request_data: request, writer_stdout, writer_stderr },
        ),
        CliCommandChoice::SaveRequestWithBaseRequest {
            request_name,
            base_request_name,
            request_data,
        } => CliExecutor::SaveRequestWithBaseRequest(
            SaveRequestWithBaseRequestExecutor {
                request_name,
                base_request_name,
                request_data,
                writer_stdout,
                writer_stderr,
            },
        ),
        CliCommandChoice::ShowRequests => CliExecutor::ShowRequests(
            ShowListAllRequestExecutor { writer: writer_stdout },
        ),
        CliCommandChoice::InspectRequest { request_name } => CliExecutor::InspectRequest(
            InspectRequestExecutor { request_name, writer: writer_stdout },
        ),
        CliCommandChoice::RemoveSavedRequest { .. } => vstd::pervasive::unreached(),
        CliCommandChoice::RenameSavedRequest { .. } => vstd::pervasive::unreached(),
    }
}

} // verus!
