use vstd::prelude::*;

use crate::cli_input::{ChoiceModel, CliInput, InputError, InputModel};
use crate::commands::{commands_view, ViewCommandChoice, ViewCommandModel};
use crate::methods::METHODS;
use crate::request::{complete_request, PartialModel};
use crate::url::lemma_localhost_alias;
use crate::input_parsers::{
    apply_items, base_request_name_of, base_request_of, main_commands_of, parse_inputs_to_main_command_choices, parse_inputs_to_request_data,
    parse_inputs_to_saving_command_choices, request_data_of, saving_commands_of,
};
use crate::validators::{
    aliases_expanded, has_body_item, method_inferred, raw_body_conflicts,
    validate_alias_url_to_localhost, validate_basic_request_without_explicit_method,
    validate_body_values_with_raw,
};

verus! {

/// The checks of the command line, in order: the method of a request given
/// without one, a raw body that conflicts with body items, the localhost
/// alias.
pub open spec fn checked_input(m: InputModel) -> Result<InputModel, InputError> {
    let inferred = method_inferred(m);
    if raw_body_conflicts(inferred) {
        Err(InputError::RawBodyNotAnObject)
    } else {
        Ok(aliases_expanded(inferred))
    }
}

/// The commands of a checked command line: the saving commands first, then
/// the main ones, all on the request data that it gives.
pub open spec fn commands_of(m: InputModel) -> Seq<ViewCommandModel> {
    let base = request_data_of(m);
    saving_commands_of(m, base) + main_commands_of(m, base)
}

/// Turns what the command line asks for into the commands to run.
pub fn map_input_to_commands(input: CliInput) -> (r: Result<Vec<ViewCommandChoice>, InputError>)
    ensures
        match checked_input(input@) {
            Ok(m) => r matches Ok(v) && commands_view(v@) == commands_of(m),
            Err(e) => r == Err::<Vec<ViewCommandChoice>, InputError>(e),
        },
{
    let input = match validate_basic_request_without_explicit_method(input) {
        Ok(i) => i,
        Err(e) => {
            return Err(e);
        },
    };
    let input = match validate_body_values_with_raw(input) {
        Ok(i) => i,
        Err(e) => {
            return Err(e);
        },
    };
    let input = match validate_alias_url_to_localhost(input) {
        Ok(i) => i,
        Err(e) => {
            return Err(e);
        },
    };
    let base_request = match parse_inputs_to_request_data(&input) {
        Ok(b) => b,
        Err(e) => {
            return Err(e);
        },
    };
    let mut saving = match parse_inputs_to_saving_command_choices(&input, &base_request) {
        Ok(v) => v,
        Err(e) => {
            return Err(e);
        },
    };
    let mut main = match parse_inputs_to_main_command_choices(&input, &base_request) {
        Ok(v) => v,
        Err(e) => {
            return Err(e);
        },
    };
    let ghost s0 = saving@;
    let ghost m0 = main@;
    saving.append(&mut main);
    assert(commands_view(saving@) =~= commands_view(s0) + commands_view(m0));
    Ok(saving)
}

/// Law: every command works on the request data that the command line
/// gives: what a save command stores is what a submit command sends, and a
/// submit command comes last.
pub proof fn lemma_saved_request_is_sent_request(m: InputModel)
    ensures
        forall|i: int|
            0 <= i < commands_of(m).len() ==> match #[trigger] commands_of(m)[i] {
                ViewCommandModel::SaveRequestWithBaseRequest { request_data, .. } => request_data
                    == request_data_of(m),
                ViewCommandModel::SubmitSavedRequest { request_data, .. } => request_data
                    == request_data_of(m) && i == commands_of(m).len() - 1,
                ViewCommandModel::SubmitRequest { request, .. } => request == complete_request(
                    request_data_of(m),
                ) && i == commands_of(m).len() - 1,
                _ => true,
            },
{
    let base = request_data_of(m);
    let s = saving_commands_of(m, base);
    let c = commands_of(m);
    assert forall|i: int| 0 <= i < c.len() implies match #[trigger] c[i] {
        ViewCommandModel::SaveRequestWithBaseRequest { request_data, .. } => request_data == base,
        ViewCommandModel::SubmitSavedRequest { request_data, .. } => request_data == base && i
            == c.len() - 1,
        ViewCommandModel::SubmitRequest { request, .. } => request == complete_request(base) && i
            == c.len() - 1,
        _ => true,
    } by {
        if i < s.len() {
            assert(c[i] == s[i]);
        } else {
            assert(c[i] == main_commands_of(m, base)[i - s.len()]);
        }
    }
}

/// Law: with `--save-as`, a request is saved under that name before it is
/// sent, with the data it is sent with.
pub proof fn lemma_save_as_saves_first(m: InputModel, name: Seq<char>)
    requires
        m.save_as == Some(name),
    ensures
        commands_of(m)[0] == (ViewCommandModel::SaveRequestWithBaseRequest {
            request_name: name,
            base_request_name: base_request_name_of(m.choice),
            request_data: request_data_of(m),
            view_options: m.view_options,
        }),
        commands_of(m).len() >= 2,
        m.choice matches ChoiceModel::Edit { request_name } ==> commands_of(
            m,
        )[0]->SaveRequestWithBaseRequest_base_request_name == Some(request_name),
        m.choice matches ChoiceModel::Run { request_name, .. } ==> commands_of(
            m,
        )[0]->SaveRequestWithBaseRequest_base_request_name == Some(request_name),
{
}

/// The command line with another URL for a basic request.
pub open spec fn with_request_url(m: InputModel, url: Seq<char>) -> InputModel {
    InputModel {
        choice: match m.choice {
            ChoiceModel::DefaultBasicRequest { .. } => ChoiceModel::DefaultBasicRequest { url },
            ChoiceModel::BasicRequest { method, .. } => ChoiceModel::BasicRequest { method, url },
            _ => m.choice,
        },
        ..m
    }
}

/// Law: a basic request to `:port/...` is checked into the same command
/// line, and so runs the same commands, as one to `localhost:port/...`.
pub proof fn lemma_localhost_alias_same_input(m: InputModel, rest: Seq<char>)
    ensures
        checked_input(with_request_url(m, seq![':'] + rest)) == checked_input(
            with_request_url(m, "localhost:"@ + rest),
        ),
{
    lemma_localhost_alias(rest);
}

/// Law: `--url :port/...` is checked into the same command line as
/// `--url localhost:port/...`.
pub proof fn lemma_localhost_alias_same_url_option(m: InputModel, rest: Seq<char>)
    ensures
        checked_input(InputModel { url_manual: Some(seq![':'] + rest), ..m }) == checked_input(
            InputModel { url_manual: Some("localhost:"@ + rest), ..m },
        ),
{
    lemma_localhost_alias(rest);
}

/// Request items never change the method of a request.
proof fn lemma_items_keep_method(p: PartialModel, items: Seq<Seq<char>>)
    ensures
        apply_items(p, items).method == p.method,
    decreases items.len(),
{
    if items.len() > 0 {
        lemma_items_keep_method(p, items.drop_last());
    }
}

/// Law: a request given without a method is sent as a `POST` where some
/// item sets a body field, and as a `GET` otherwise.
pub proof fn lemma_method_of_request_without_method(m: InputModel, url: Seq<char>)
    requires
        m.choice == (ChoiceModel::DefaultBasicRequest { url }),
        !raw_body_conflicts(method_inferred(m)),
    ensures
        commands_of(checked_input(m)->Ok_0).last() matches ViewCommandModel::SubmitRequest {
            request,
            ..
        } && request.method == (if has_body_item(m.request_items) {
            METHODS::POST
        } else {
            METHODS::GET
        }),
{
    let c = checked_input(m)->Ok_0;
    lemma_items_keep_method(base_request_of(c), c.request_items);
}

} // verus!
