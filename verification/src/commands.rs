use vstd::prelude::*;

use crate::cli_input::{opt_chars, ViewOptions};
use crate::request::{PartialModel, PartialRequestData, RequestData, RequestModel};

verus! {

/// The commands the program runs, in order.
#[derive(Debug, PartialEq, Eq)]
pub enum ViewCommandChoice {
    SubmitRequest { request: RequestData, view_options: ViewOptions },
    SubmitSavedRequest {
        request_name: String,
        request_data: PartialRequestData,
        view_options: ViewOptions,
    },
    SaveNewRequest { request_name: String, request_data: RequestData, view_options: ViewOptions },
    SaveRequestWithBaseRequest {
        request_name: String,
        base_request_name: Option<String>,
        request_data: PartialRequestData,
        view_options: ViewOptions,
    },
    RemoveSavedRequest { request_name: String, view_options: ViewOptions },
    RenameSavedRequest {
        request_name: String,
        new_name: String,
        has_to_confirm: bool,
        view_options: ViewOptions,
    },
    ShowRequests,
    InspectRequest { request_name: String },
}

/// The model of a command.
pub enum ViewCommandModel {
    SubmitRequest { request: RequestModel, view_options: ViewOptions },
    SubmitSavedRequest {
        request_name: Seq<char>,
        request_data: PartialModel,
        view_options: ViewOptions,
    },
    SaveNewRequest {
        request_name: Seq<char>,
        request_data: RequestModel,
        view_options: ViewOptions,
    },
    SaveRequestWithBaseRequest {
        request_name: Seq<char>,
        base_request_name: Option<Seq<char>>,
        request_data: PartialModel,
        view_options: ViewOptions,
    },
    RemoveSavedRequest { request_name: Seq<char>, view_options: ViewOptions },
    RenameSavedRequest {
        request_name: Seq<char>,
        new_name: Seq<char>,
        has_to_confirm: bool,
        view_options: ViewOptions,
    },
    ShowRequests,
    InspectRequest { request_name: Seq<char> },
}

impl View for ViewCommandChoice {
    type V = ViewCommandModel;

    open spec fn view(&self) -> ViewCommandModel {
        match self {
            ViewCommandChoice::SubmitRequest { request, view_options } => {
                ViewCommandModel::SubmitRequest { request: request@, view_options: *view_options }
            },
            ViewCommandChoice::SubmitSavedRequest { request_name, request_data, view_options } => {
                ViewCommandModel::SubmitSavedRequest {
                    request_name: request_name@,
                    request_data: request_data@,
                    view_options: *view_options,
                }
            },
            ViewCommandChoice::SaveNewRequest { request_name, request_data, view_options } => {
                ViewCommandModel::SaveNewRequest {
                    request_name: request_name@,
                    request_data: request_data@,
                    view_options: *view_options,
                }
            },
            ViewCommandChoice::SaveRequestWithBaseRequest {
                request_name,
                base_request_name,
                request_data,
                view_options,
            } => ViewCommandModel::SaveRequestWithBaseRequest {
                request_name: request_name@,
                base_request_name: opt_chars(*base_request_name),
                request_data: request_data@,
                view_options: *view_options,
            },
            ViewCommandChoice::RemoveSavedRequest { request_name, view_options } => {
                ViewCommandModel::RemoveSavedRequest {
                    request_name: request_name@,
                    view_options: *view_options,
                }
            },
            ViewCommandChoice::RenameSavedRequest {
                request_name,
                new_name,
                has_to_confirm,
                view_options,
            } => ViewCommandModel::RenameSavedRequest {
                request_name: request_name@,
                new_name: new_name@,
                has_to_confirm: *has_to_confirm,
                view_options: *view_options,
            },
            ViewCommandChoice::ShowRequests => ViewCommandModel::ShowRequests,
            ViewCommandChoice::InspectRequest { request_name } => ViewCommandModel::InspectRequest {
                request_name: request_name@,
            },
        }
    }
}

/// The models of a list of commands.
pub open spec fn commands_view(v: Seq<ViewCommandChoice>) -> Seq<ViewCommandModel> {
    v.map_values(|c: ViewCommandChoice| c@)
}

} // verus!
