use vstd::prelude::*;

use crate::cli_input::{ChoiceModel, CliCommandChoice, CliInput, InputError, InputModel};
use crate::commands::{commands_view, ViewCommandChoice, ViewCommandModel};
use crate::methods::METHODS;
use crate::request::{
    body_of, complete_request, lemma_header_item_unique, partial_headers_unique, BodyPayload,
    PartialModel, PartialRequestData,
};
use crate::request_items::{
    body_item_result, body_value, header_item_result, header_value, item_of, non_string_body_value,
    is_item_of_kind, item_key, item_value, non_string_item_result, non_string_value,
    query_param_value, url_with_query_param, ItemKind,
};
use crate::json::strings_view;
use crate::text::has_char;
use crate::url::{lemma_query_in_url, query_pairs, url_of, valid_base, with_scheme, Url, UrlModel};

verus! {

// ---------------------------------------------------------------------
// Request data
// ---------------------------------------------------------------------
/// What one request item makes of the request: the change of its kind, or
/// no change where the item is of no kind or cannot be applied.
pub open spec fn apply_item(p: PartialModel, s: Seq<char>) -> PartialModel {
    match item_of(s) {
        None => p,
        Some(t) => if t.0 == ItemKind::QueryParam {
            if p.url matches Some(UrlModel::Raw(_)) {
                p
            } else {
                PartialModel { url: Some(url_with_query_param(p.url, t.1, t.2)), ..p }
            }
        } else if t.0 == ItemKind::NonStringBody {
            match non_string_value(t.2) {
                Some(v) => non_string_item_result(p, t.1, v),
                None => p,
            }
        } else if t.0 == ItemKind::Body {
            body_item_result(p, t.1, t.2)
        } else {
            header_item_result(p, t.1, t.2)
        },
    }
}

/// The request items applied in order.
pub open spec fn apply_items(p: PartialModel, items: Seq<Seq<char>>) -> PartialModel
    decreases items.len(),
{
    if items.len() == 0 {
        p
    } else {
        apply_item(apply_items(p, items.drop_last()), items.last())
    }
}

/// Law: request items keep the header names of request data apart.
pub proof fn lemma_apply_items_unique(p: PartialModel, items: Seq<Seq<char>>)
    requires
        partial_headers_unique(p),
    ensures
        partial_headers_unique(apply_items(p, items)),
    decreases items.len(),
{
    if items.len() > 0 {
        lemma_apply_items_unique(p, items.drop_last());
        let q = apply_items(p, items.drop_last());
        let hs = match q.headers {
            Some(h) => h,
            None => Seq::empty(),
        };
        lemma_header_item_unique(hs, item_key(items.last()), item_value(items.last()));
    }
}

/// The query parameter that an item `key==value` adds.
pub open spec fn item_pair(s: Seq<char>) -> (Seq<char>, Seq<char>) {
    (item_key(s), item_value(s))
}

/// Law: query items `key==value` add their parameters to a parsed URL, in
/// order, and change nothing else.
pub proof fn lemma_query_items_extend_url(
    p: PartialModel,
    base: Seq<char>,
    query: Seq<(Seq<char>, Seq<char>)>,
    items: Seq<Seq<char>>,
)
    requires
        p.url == Some(UrlModel::Validated { base, query }),
        forall|i: int| 0 <= i < items.len() ==> is_item_of_kind(#[trigger] items[i], ItemKind::QueryParam),
    ensures
        apply_items(p, items) == (PartialModel {
            url: Some(
                UrlModel::Validated {
                    base,
                    query: query + items.map_values(|s: Seq<char>| item_pair(s)),
                },
            ),
            ..p
        }),
    decreases items.len(),
{
    if items.len() > 0 {
        let init = items.drop_last();
        assert forall|i: int| 0 <= i < init.len() implies is_item_of_kind(
            #[trigger] init[i],
            ItemKind::QueryParam,
        ) by {
            assert(init[i] == items[i]);
        }
        lemma_query_items_extend_url(p, base, query, init);
        assert(is_item_of_kind(items[items.len() - 1], ItemKind::QueryParam));
        let f = |s: Seq<char>| item_pair(s);
        assert(query + items.map_values(f) =~= (query + init.map_values(f)).push(
            item_pair(items.last()),
        ));
    } else {
        assert(query + items.map_values(|s: Seq<char>| item_pair(s)) =~= query);
    }
}

/// Law: `base key==value ...` gives the request the URL that
/// `base?key=value&...` gives, where the items name the pairs of the query.
pub proof fn lemma_query_items_as_url(
    p: PartialModel,
    base: Seq<char>,
    q: Seq<char>,
    items: Seq<Seq<char>>,
)
    requires
        valid_base(base),
        !has_char(base, '?'),
        p.url == Some(url_of(base)),
        forall|i: int| 0 <= i < items.len() ==> is_item_of_kind(#[trigger] items[i], ItemKind::QueryParam),
        items.map_values(|s: Seq<char>| item_pair(s)) == query_pairs(q),
    ensures
        apply_items(p, items) == (PartialModel { url: Some(url_of(base + seq!['?'] + q)), ..p }),
{
    lemma_query_in_url(base, q);
    lemma_query_items_extend_url(p, with_scheme(base), Seq::empty(), items);
    assert(Seq::<(Seq<char>, Seq<char>)>::empty() + query_pairs(q) =~= query_pairs(q));
}

/// Law: a request to `base?query` gets the request data that a request to
/// `base` gets with the query's pairs given as `key==value` items.
pub proof fn lemma_query_in_url_as_items(
    m: InputModel,
    base: Seq<char>,
    q: Seq<char>,
    items: Seq<Seq<char>>,
)
    requires
        m.choice == (ChoiceModel::DefaultBasicRequest { url: base + seq!['?'] + q }),
        m.request_items.len() == 0,
        valid_base(base),
        !has_char(base, '?'),
        forall|i: int| 0 <= i < items.len() ==> is_item_of_kind(#[trigger] items[i], ItemKind::QueryParam),
        items.map_values(|s: Seq<char>| item_pair(s)) == query_pairs(q),
    ensures
        request_data_of(m) == request_data_of(
            InputModel {
                choice: ChoiceModel::DefaultBasicRequest { url: base },
                request_items: items,
                ..m
            },
        ),
{
    let m2 = InputModel {
        choice: ChoiceModel::DefaultBasicRequest { url: base },
        request_items: items,
        ..m
    };
    lemma_query_items_as_url(base_request_of(m2), base, q, items);
    assert(apply_items(base_request_of(m), m.request_items) == base_request_of(m));
}

/// The request data that the options and the chosen command give before
/// the request items: `--url`, `--method`, `--raw`, then the method and URL
/// of a basic request (`GET` where none was named).
pub open spec fn base_request_of(input: InputModel) -> PartialModel {
    let p = PartialModel {
        url: match input.url_manual {
            Some(u) => Some(url_of(u)),
            None => None,
        },
        method: input.method_manual,
        headers: None,
        body: match input.raw_body {
            Some(b) => Some(body_of(b)),
            None => None,
        },
    };
    match input.choice {
        ChoiceModel::BasicRequest { method, url } => PartialModel {
            method: Some(method),
            url: Some(url_of(url)),
            ..p
        },
        ChoiceModel::DefaultBasicRequest { url } => PartialModel {
            method: Some(METHODS::GET),
            url: Some(url_of(url)),
            ..p
        },
        _ => p,
    }
}

/// The request data that the command line gives.
pub open spec fn request_data_of(input: InputModel) -> PartialModel {
    apply_items(base_request_of(input), input.request_items)
}

/// Applies one request item: the first of the item parsers that takes it
/// decides; where it fails, the request stays as it was.
pub fn apply_request_item(s: &str, req: PartialRequestData) -> (r: PartialRequestData)
    ensures
        r@ == apply_item(req@, s@),
{
    let parsed = match query_param_value(s, &req) {
        Some(res) => Some(res),
        None => match non_string_body_value(s, &req) {
            Some(res) => Some(res),
            None => match body_value(s, &req) {
                Some(res) => Some(res),
                None => header_value(s, &req),
            },
        },
    };
    match parsed {
        Some(Ok(new_req)) => new_req,
        _ => req,
    }
}

/// The request data that the command line gives: the options, the chosen
/// command, then each request item in order.
pub fn parse_inputs_to_request_data(input: &CliInput) -> (r: Result<PartialRequestData, InputError>)
    ensures
        r matches Ok(req) && req@ == request_data_of(input@),
        r matches Ok(req) && partial_headers_unique(req@),
{
    let opts = &input.request_input;
    let mut req = PartialRequestData::default();
    req.method = opts.method_manual;
    req.url = match &opts.url_manual {
        Some(value) => Some(Url::from_str(value.as_str())),
        None => None,
    };
    req.body = match &opts.raw_body {
        Some(value) => Some(BodyPayload::from_str(value.as_str())),
        None => None,
    };
    let mut req = match &input.choice {
        CliCommandChoice::BasicRequest { method, url } => req.with_method(*method).with_url(
            url.as_str(),
        ),
        CliCommandChoice::DefaultBasicRequest { url } => req.with_method(METHODS::GET).with_url(
            url.as_str(),
        ),
        _ => req,
    };
    assert(req@ == base_request_of(input@));
    let items = &opts.request_items;
    let mut i: usize = 0;
    while i < items.len()
        invariant
            i <= items.len(),
            items@ == input.request_input.request_items@,
            req@ == apply_items(base_request_of(input@), strings_view(items@).take(i as int)),
        decreases items.len() - i,
    {
        proof {
            let views = strings_view(items@);
            assert(views.take(i + 1).drop_last() =~= views.take(i as int));
            assert(views.take(i + 1).last() == items@[i as int]@);
        }
        req = apply_request_item(items[i].as_str(), req);
        i = i + 1;
    }
    assert(strings_view(items@).take(items.len() as int) =~= strings_view(items@));
    proof {
        lemma_apply_items_unique(base_request_of(input@), strings_view(items@));
    }
    Ok(req)
}

// ---------------------------------------------------------------------
// Commands
// ---------------------------------------------------------------------
/// The name of the saved request that a command starts from, where it has one.
pub open spec fn base_request_name_of(choice: ChoiceModel) -> Option<Seq<char>> {
    match choice {
        ChoiceModel::Run { request_name, .. } => Some(request_name),
        ChoiceModel::Edit { request_name } => Some(request_name),
        _ => None,
    }
}

/// The commands that `--save-as` adds: none without it, else saving the
/// request data under the given name, on top of the saved request that the
/// command starts from.
pub open spec fn saving_commands_of(input: InputModel, base: PartialModel) -> Seq<ViewCommandModel> {
    match input.save_as {
        Some(name) => seq![
            ViewCommandModel::SaveRequestWithBaseRequest {
                request_name: name,
                base_request_name: base_request_name_of(input.choice),
                request_data: base,
                view_options: input.view_options,
            },
        ],
        None => Seq::empty(),
    }
}

/// Law: `--save-as` saves the request data under the name given, and a
/// copy of a command that starts from a saved request (`run` or `edit`) is
/// saved on top of that saved request; a copy of a request given in full
/// has no saved request under it.
pub proof fn lemma_save_as_base_is_started_from(input: InputModel, base: PartialModel, name: Seq<char>)
    requires
        input.save_as == Some(name),
    ensures
        saving_commands_of(input, base).len() == 1,
        saving_commands_of(input, base)[0] is SaveRequestWithBaseRequest,
        saving_commands_of(input, base)[0]->SaveRequestWithBaseRequest_request_name == name,
        saving_commands_of(input, base)[0]->SaveRequestWithBaseRequest_request_data == base,
        input.choice matches ChoiceModel::Edit { request_name } ==> saving_commands_of(
            input,
            base,
        )[0]->SaveRequestWithBaseRequest_base_request_name == Some(request_name),
        input.choice matches ChoiceModel::Run { request_name, .. } ==> saving_commands_of(
            input,
            base,
        )[0]->SaveRequestWithBaseRequest_base_request_name == Some(request_name),
        (input.choice is DefaultBasicRequest || input.choice is BasicRequest) ==> saving_commands_of(
            input,
            base,
        )[0]->SaveRequestWithBaseRequest_base_request_name is None,
{
}

/// The saving commands that the command line asks for.
pub fn parse_inputs_to_saving_command_choices(
    input: &CliInput,
    base_request: &PartialRequestData,
) -> (r: Result<Vec<ViewCommandChoice>, InputError>)
    ensures
        r matches Ok(v) && commands_view(v@) == saving_commands_of(input@, base_request@),
        input@.choice matches ChoiceModel::Edit { request_name } ==> (input@.save_as is Some ==> (
        r matches Ok(v) && commands_view(v@)[0]->SaveRequestWithBaseRequest_base_request_name
            == Some(request_name))),
        input@.choice matches ChoiceModel::Run { request_name, .. } ==> (input@.save_as is Some
            ==> (r matches Ok(v) && commands_view(v@)[0]->SaveRequestWithBaseRequest_base_request_name
            == Some(request_name))),
{
    let mut out: Vec<ViewCommandChoice> = Vec::new();
    if let Some(request_name) = &input.save_options.save_as {
        let base_request_name = match &input.choice {
            CliCommandChoice::Run { request_name, .. } => Some(request_name.clone()),
            CliCommandChoice::Edit { request_name } => Some(request_name.clone()),
            _ => None,
        };
        out.push(
            ViewCommandChoice::SaveRequestWithBaseRequest {
                request_name: request_name.clone(),
                base_request_name,
                request_data: base_request.duplicate(),
                view_options: input.view_options,
            },
        );
        assert(commands_view(out@) =~= saving_commands_of(input@, base_request@));
    } else {
        assert(commands_view(out@) =~= saving_commands_of(input@, base_request@));
    }
    Ok(out)
}

/// The main commands of the chosen command.
pub open spec fn main_commands_of(input: InputModel, base: PartialModel) -> Seq<ViewCommandModel> {
    let vo = input.view_options;
    match input.choice {
        ChoiceModel::Ls => seq![ViewCommandModel::ShowRequests],
        ChoiceModel::Inspect { request_name } => seq![
            ViewCommandModel::InspectRequest { request_name: request_name },
        ],
        ChoiceModel::Remove { request_name } => seq![
            ViewCommandModel::RemoveSavedRequest { request_name: request_name, view_options: vo },
        ],
        ChoiceModel::Rename { request_name, new_name, has_to_confirm } => seq![
            ViewCommandModel::RenameSavedRequest {
                request_name: request_name,
                new_name: new_name,
                has_to_confirm,
                view_options: vo,
            },
        ],
        ChoiceModel::Edit { request_name } => seq![
            ViewCommandModel::SaveRequestWithBaseRequest {
                request_name: request_name,
                base_request_name: Some(request_name),
                request_data: base,
                view_options: vo,
            },
        ],
        ChoiceModel::Run { request_name, save } => {
            let submit = ViewCommandModel::SubmitSavedRequest {
                request_name: request_name,
                request_data: base,
                view_options: vo,
            };
            if save {
                seq![
                    ViewCommandModel::SaveRequestWithBaseRequest {
                        request_name: request_name,
                        base_request_name: Some(request_name),
                        request_data: base,
                        view_options: vo,
                    },
                    submit,
                ]
            } else {
                seq![submit]
            }
        },
        ChoiceModel::DefaultBasicRequest { .. } => seq![
            ViewCommandModel::SubmitRequest { request: complete_request(base), view_options: vo },
        ],
        ChoiceModel::BasicRequest { .. } => seq![
            ViewCommandModel::SubmitRequest { request: complete_request(base), view_options: vo },
        ],
    }
}

/// The main commands that the command line asks for.
pub fn parse_inputs_to_main_command_choices(
    input: &CliInput,
    base_request: &PartialRequestData,
) -> (r: Result<Vec<ViewCommandChoice>, InputError>)
    ensures
        r matches Ok(v) && commands_view(v@) == main_commands_of(input@, base_request@),
{
    let vo = input.view_options;
    let mut out: Vec<ViewCommandChoice> = Vec::new();
    match &input.choice {
        CliCommandChoice::Ls => {
            out.push(ViewCommandChoice::ShowRequests);
        },
        CliCommandChoice::Inspect { request_name } => {
            out.push(ViewCommandChoice::InspectRequest { request_name: request_name.clone() });
        },
        CliCommandChoice::Remove { request_name } => {
            out.push(
                ViewCommandChoice::RemoveSavedRequest {
                    request_name: request_name.clone(),
                    view_options: vo,
                },
            );
        },
        CliCommandChoice::Rename { request_name, new_name, has_to_confirm } => {
            out.push(
                ViewCommandChoice::RenameSavedRequest {
                    request_name: request_name.clone(),
                    new_name: new_name.clone(),
                    has_to_confirm: *has_to_confirm,
                    view_options: vo,
                },
            );
        },
        CliCommandChoice::Edit { request_name } => {
            out.push(
                ViewCommandChoice::SaveRequestWithBaseRequest {
                    base_request_name: Some(request_name.clone()),
                    request_name: request_name.clone(),
                    request_data: base_request.duplicate(),
                    view_options: vo,
                },
            );
        },
        CliCommandChoice::Run { request_name, save } => {
            if *save {
                out.push(
                    ViewCommandChoice::SaveRequestWithBaseRequest {
                        base_request_name: Some(request_name.clone()),
                        request_name: request_name.clone(),
                        request_data: base_request.duplicate(),
                        view_options: vo,
                    },
                );
            }
            out.push(
                ViewCommandChoice::SubmitSavedRequest {
                    request_name: request_name.clone(),
                    request_data: base_request.duplicate(),
                    view_options: vo,
                },
            );
        },
        CliCommandChoice::DefaultBasicRequest { .. } => {
            out.push(
                ViewCommandChoice::SubmitRequest {
                    request: base_request.duplicate().to_request_data(),
                    view_options: vo,
                },
            );
        },
        CliCommandChoice::BasicRequest { .. } => {
            out.push(
                ViewCommandChoice::SubmitRequest {
                    request: base_request.duplicate().to_request_data(),
                    view_options: vo,
                },
            );
        },
    }
    assert(commands_view(out@) =~= main_commands_of(input@, base_request@));
    Ok(out)
}

} // verus!
