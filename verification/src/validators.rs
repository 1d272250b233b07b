use vstd::prelude::*;

use crate::cli_input::{ChoiceModel, CliCommandChoice, CliInput, InputError, InputModel};
use crate::json::{is_json_object, serde_map_accepts, strings_view};
use crate::methods::METHODS;
use crate::request_items::{is_body_item, is_item_of_kind, ItemKind};
use crate::url::{expand_localhost_alias, localhost_alias};

verus! {

/// Whether some request item sets a string body field.
pub open spec fn has_body_item(items: Seq<Seq<char>>) -> bool {
    exists|i: int| 0 <= i < items.len() && is_item_of_kind(#[trigger] items[i], ItemKind::Body)
}

/// Whether some request item sets a string body field.
pub fn any_body_item(items: &Vec<String>) -> (r: bool)
    ensures
        r == has_body_item(strings_view(items@)),
{
    let ghost views = strings_view(items@);
    let mut i: usize = 0;
    while i < items.len()
        invariant
            i <= items.len(),
            views == strings_view(items@),
            forall|j: int| 0 <= j < i ==> !is_item_of_kind(#[trigger] views[j], ItemKind::Body),
        decreases items.len() - i,
    {
        if is_body_item(items[i].as_str()) {
            assert(views[i as int] == items@[i as int]@);
            return true;
        }
        assert(views[i as int] == items@[i as int]@);
        i = i + 1;
    }
    false
}

/// A request given without a method becomes a `POST` where some item sets
/// a body field.
pub open spec fn method_inferred(m: InputModel) -> InputModel {
    match m.choice {
        ChoiceModel::DefaultBasicRequest { url } => if has_body_item(m.request_items) {
            InputModel { choice: ChoiceModel::BasicRequest { method: METHODS::POST, url }, ..m }
        } else {
            m
        },
        _ => m,
    }
}

/// Whether a raw body that is not a JSON object comes with items that set
/// body fields, which could not be merged into it.
pub open spec fn raw_body_conflicts(m: InputModel) -> bool {
    &&& m.raw_body matches Some(raw) && !serde_map_accepts(raw)
    &&& has_body_item(m.request_items)
}

/// The request's URL and `--url` with the localhost alias expanded.
pub open spec fn aliases_expanded(m: InputModel) -> InputModel {
    InputModel {
        choice: match m.choice {
            ChoiceModel::DefaultBasicRequest { url } => ChoiceModel::DefaultBasicRequest {
                url: localhost_alias(url),
            },
            ChoiceModel::BasicRequest { method, url } => ChoiceModel::BasicRequest {
                method,
                url: localhost_alias(url),
            },
            _ => m.choice,
        },
        url_manual: match m.url_manual {
            Some(u) => Some(localhost_alias(u)),
            None => None,
        },
        ..m
    }
}

/// A request given without a method is a `POST` where some item sets a
/// body field, and stays a `GET` otherwise.
pub fn validate_basic_request_without_explicit_method(input: CliInput) -> (r: Result<
    CliInput,
    InputError,
>)
    ensures
        r matches Ok(out) && out@ == method_inferred(input@),
{
    let CliInput { choice, request_input, save_options, view_options } = input;
    let choice = match choice {
        CliCommandChoice::DefaultBasicRequest { url } => {
            if any_body_item(&request_input.request_items) {
                CliCommandChoice::BasicRequest { method: METHODS::POST, url }
            } else {
                CliCommandChoice::DefaultBasicRequest { url }
            }
        },
        other => other,
    };
    Ok(CliInput { choice, request_input, save_options, view_options })
}

/// A raw body must be a JSON object where some item sets a body field too.
pub fn validate_body_values_with_raw(input: CliInput) -> (r: Result<CliInput, InputError>)
    ensures
        raw_body_conflicts(input@) ==> r == Err::<CliInput, InputError>(
            InputError::RawBodyNotAnObject,
        ),
        !raw_body_conflicts(input@) ==> r == Ok::<CliInput, InputError>(input),
{
    if let Some(raw_value) = &input.request_input.raw_body {
        if !is_json_object(raw_value.as_str()) {
            if any_body_item(&input.request_input.request_items) {
                return Err(InputError::RawBodyNotAnObject);
            }
        }
    }
    Ok(input)
}

/// A URL written `:port/...` stands for `localhost:port/...`, in the
/// request's URL and in `--url`.
pub fn validate_alias_url_to_localhost(input: CliInput) -> (r: Result<CliInput, InputError>)
    ensures
        r matches Ok(out) && out@ == aliases_expanded(input@),
{
    let CliInput { choice, mut request_input, save_options, view_options } = input;
    let choice = match choice {
        CliCommandChoice::DefaultBasicRequest { url } => CliCommandChoice::DefaultBasicRequest {
            url: expand_localhost_alias(url.as_str()),
        },
        CliCommandChoice::BasicRequest { method, url } => CliCommandChoice::BasicRequest {
            method,
            url: expand_localhost_alias(url.as_str()),
        },
        other => other,
    };
    request_input.url_manual = match request_input.url_manual {
        Some(u) => Some(expand_localhost_alias(u.as_str())),
        None => None,
    };
    Ok(CliInput { choice, request_input, save_options, view_options })
}

} // verus!
