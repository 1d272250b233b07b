use vstd::prelude::*;

use crate::cli_commands::{
    cli_commands_view, optional_complete, CliCommandChoice, CliCommandModel, OptionalModel,
    OptionalRequestData,
};
use crate::cli_input::{is_method_subcommand, ArgValues};
use crate::json::{json_error, serde_value_error, strings_view};
use crate::methods::{method_named, METHODS};
use crate::json_text::{
    json_object_text, lemma_sorted_pairs, sort_pairs, sorted_pairs, string_map_to_json,
};
use crate::request::{
    apply_header_item, header_insert, header_item_apply, headers_unique, insert_header,
    lemma_header_insert_unique, lemma_header_item_unique,
};
use crate::request_items::{classify_item, is_item_of_kind, item_of, ItemKind};
use crate::text::{owned, str_eq};
use crate::url::{pairs_of, url_of, Url, UrlModel};

verus! {

broadcast use vstd::string::group_string_axioms;

/// The errors of reading the command line.
#[derive(Debug, PartialEq, Eq)]
pub enum ParseError {
    /// The command needs inputs and none were given.
    NoInputs,
    /// A URL that is not one.
    InvalidUrl(String),
    /// A `--method` that names no method.
    UnknownMethod,
    /// The subcommand is not one the program has.
    NoValidSubcommand,
    /// `--raw` together with body items.
    RawWithBody,
    /// A `--raw` body that is not JSON, with serde_json's message.
    InvalidRawBody(String),
}

/// The model of an error.
pub enum ParseErrorModel {
    NoInputs,
    InvalidUrl(Seq<char>),
    UnknownMethod,
    NoValidSubcommand,
    RawWithBody,
    InvalidRawBody(Seq<char>),
}

impl View for ParseError {
    type V = ParseErrorModel;

    open spec fn view(&self) -> ParseErrorModel {
        match self {
            ParseError::NoInputs => ParseErrorModel::NoInputs,
            ParseError::InvalidUrl(u) => ParseErrorModel::InvalidUrl(u@),
            ParseError::UnknownMethod => ParseErrorModel::UnknownMethod,
            ParseError::NoValidSubcommand => ParseErrorModel::NoValidSubcommand,
            ParseError::RawWithBody => ParseErrorModel::RawWithBody,
            ParseError::InvalidRawBody(m) => ParseErrorModel::InvalidRawBody(m@),
        }
    }
}

impl ParseError {
    /// The message that describes the error.
    pub fn message(&self) -> (r: String)
        ensures
            r@ == parse_error_message(self@),
    {
        match self {
            ParseError::NoInputs => owned("No inputs at command"),
            ParseError::InvalidUrl(url) => {
                let mut m = owned("Invalid URL: ");
                m.append(url.as_str());
                m
            },
            ParseError::UnknownMethod => owned("Unknown method"),
            ParseError::NoValidSubcommand => owned("No valid subcommand"),
            ParseError::RawWithBody => owned("You can't use --raw and --body at the same time"),
            ParseError::InvalidRawBody(message) => message.clone(),
        }
    }
}

/// The message of an error.
pub open spec fn parse_error_message(e: ParseErrorModel) -> Seq<char> {
    match e {
        ParseErrorModel::NoInputs => "No inputs at command"@,
        ParseErrorModel::InvalidUrl(url) => "Invalid URL: "@ + url,
        ParseErrorModel::UnknownMethod => "Unknown method"@,
        ParseErrorModel::NoValidSubcommand => "No valid subcommand"@,
        ParseErrorModel::RawWithBody => "You can't use --raw and --body at the same time"@,
        ParseErrorModel::InvalidRawBody(m) => m,
    }
}

/// A result whose error is given by its model.
pub open spec fn result_matches<T>(r: Result<T, ParseError>, e: ParseErrorModel) -> bool {
    r matches Err(x) && x@ == e
}

/// Whether a text is a URL.
pub open spec fn is_url_text(s: Seq<char>) -> bool {
    url_of(s) is Validated
}

/// Whether a text is a URL.
pub fn is_url(s: &str) -> (r: bool)
    ensures
        r == is_url_text(s@),
{
    match Url::from_str(s) {
        Url::ValidatedUrl(_) => true,
        Url::Raw(_) => false,
    }
}

/// The headers that `name:value` items give, later values replacing
/// earlier ones and `name:` removing the header; none where no item is a
/// header.
pub open spec fn item_headers(items: Seq<Seq<char>>) -> Option<Seq<(Seq<char>, Seq<char>)>>
    decreases items.len(),
{
    if items.len() == 0 {
        None
    } else {
        let hs = item_headers(items.drop_last());
        match item_of(items.last()) {
            Some(t) => if t.0 == ItemKind::Header {
                Some(
                    header_item_apply(
                        match hs {
                            Some(h) => h,
                            None => Seq::empty(),
                        },
                        t.1,
                        t.2,
                    ),
                )
            } else {
                hs
            },
            None => hs,
        }
    }
}

/// The body fields that `key=value` items set, later values replacing
/// earlier ones.
pub open spec fn item_body_entries(items: Seq<Seq<char>>) -> Seq<(Seq<char>, Seq<char>)>
    decreases items.len(),
{
    if items.len() == 0 {
        Seq::empty()
    } else {
        let es = item_body_entries(items.drop_last());
        match item_of(items.last()) {
            Some(t) => if t.0 == ItemKind::Body {
                header_insert(es, t.1, t.2)
            } else {
                es
            },
            None => es,
        }
    }
}

/// Law: the headers that items give name each header once.
pub proof fn lemma_item_headers_unique(items: Seq<Seq<char>>)
    ensures
        item_headers(items) matches Some(h) ==> headers_unique(h),
    decreases items.len(),
{
    if items.len() > 0 {
        lemma_item_headers_unique(items.drop_last());
        let hs = match item_headers(items.drop_last()) {
            Some(h) => h,
            None => Seq::empty(),
        };
        match item_of(items.last()) {
            Some(t) => lemma_header_item_unique(hs, t.1, t.2),
            None => {},
        }
    }
}

/// Law: the body fields that items set name each field once.
pub proof fn lemma_item_body_entries_unique(items: Seq<Seq<char>>)
    ensures
        headers_unique(item_body_entries(items)),
    decreases items.len(),
{
    if items.len() > 0 {
        lemma_item_body_entries_unique(items.drop_last());
        match item_of(items.last()) {
            Some(t) => lemma_header_insert_unique(item_body_entries(items.drop_last()), t.1, t.2),
            None => {},
        }
    }
}

/// The data that request items give: their headers, and as body the JSON
/// object of their fields, in the order of their keys, where there is one.
pub open spec fn data_of_items(items: Seq<Seq<char>>) -> OptionalModel {
    let es = item_body_entries(items);
    OptionalModel {
        url: None,
        method: None,
        headers: item_headers(items),
        body: if es.len() == 0 {
            None
        } else {
            Some(json_object_text(sorted_pairs(es)))
        },
    }
}

/// Reads headers and body fields from request items.
pub fn parse_list_of_data_to_request_data(inputs: &Vec<String>) -> (r: OptionalRequestData)
    ensures
        r@ == data_of_items(strings_view(inputs@)),
        r@.headers matches Some(h) ==> headers_unique(h),
{
    let ghost items = strings_view(inputs@);
    let mut request = OptionalRequestData::default();
    let mut body_data_values: Vec<(String, String)> = Vec::new();
    let mut i: usize = 0;
    while i < inputs.len()
        invariant
            i <= inputs.len(),
            items == strings_view(inputs@),
            request@.url is None,
            request@.method is None,
            request@.body is None,
            request@.headers == item_headers(items.take(i as int)),
            pairs_of(body_data_values@) == item_body_entries(items.take(i as int)),
        decreases inputs.len() - i,
    {
        proof {
            assert(items.take(i + 1).drop_last() =~= items.take(i as int));
            assert(items.take(i + 1).last() == inputs@[i as int]@);
        }
        match classify_item(inputs[i].as_str()) {
            Some((kind, key, value)) => {
                if kind == ItemKind::Header {
                    let mut hs = match request.headers {
                        Some(h) => h,
                        None => {
                            let v: Vec<(String, String)> = Vec::new();
                            assert(pairs_of(v@) =~= Seq::empty());
                            v
                        },
                    };
                    apply_header_item(&mut hs, key, value);
                    request.headers = Some(hs);
                } else if kind == ItemKind::Body {
                    insert_header(&mut body_data_values, key, value);
                }
            },
            None => {},
        }
        i = i + 1;
    }
    proof {
        assert(items.take(inputs.len() as int) =~= items);
    }
    proof {
        lemma_item_headers_unique(items);
        lemma_item_body_entries_unique(items);
        lemma_sorted_pairs(pairs_of(body_data_values@));
    }
    if body_data_values.len() > 0 {
        let sorted = sort_pairs(&body_data_values);
        request.body = Some(string_map_to_json(&sorted));
    }
    request
}

/// Sets the URL that `--url` gives, which must be a URL.
pub open spec fn url_applied(url: Option<String>, d: OptionalModel) -> Result<
    OptionalModel,
    ParseErrorModel,
> {
    match url {
        None => Ok(d),
        Some(u) => if is_url_text(u@) {
            Ok(OptionalModel { url: Some(u@), ..d })
        } else {
            Err(ParseErrorModel::InvalidUrl(u@))
        },
    }
}

/// Sets the method that `--method` names, which must be one.
pub open spec fn method_applied(method: Option<String>, d: OptionalModel) -> Result<
    OptionalModel,
    ParseErrorModel,
> {
    match method {
        None => Ok(d),
        Some(m) => match method_named(m@) {
            Some(x) => Ok(OptionalModel { method: Some(x), ..d }),
            None => Err(ParseErrorModel::UnknownMethod),
        },
    }
}

/// Sets the body that `--raw` gives, which must be JSON and cannot come
/// with body items; serde_json's message tells what is wrong with it. The
/// value of `--raw` is read whole as JSON text: it is not a request item, so
/// `key:=value` there is no JSON and is refused.
pub open spec fn raw_applied(raw: Option<String>, d: OptionalModel) -> Result<
    OptionalModel,
    ParseErrorModel,
> {
    match raw {
        None => Ok(d),
        Some(b) => if d.body is Some {
            Err(ParseErrorModel::RawWithBody)
        } else {
            match serde_value_error(b@) {
                Some(m) => Err(ParseErrorModel::InvalidRawBody(m)),
                None => Ok(OptionalModel { body: Some(b@), ..d }),
            }
        },
    }
}

/// Whether a result is the one a spec gives: the same data, or an error
/// with the same model.
pub open spec fn data_result_is(
    r: Result<OptionalRequestData, ParseError>,
    spec: Result<OptionalModel, ParseErrorModel>,
) -> bool {
    match spec {
        Ok(d) => r matches Ok(x) && x@ == d,
        Err(e) => result_matches(r, e),
    }
}

/// Applies `--url`.
pub fn url_manual(args: &ArgValues, request_data: OptionalRequestData) -> (r: Result<
    OptionalRequestData,
    ParseError,
>)
    ensures
        data_result_is(r, url_applied(args.url_manual, request_data@)),
{
    let mut request_data = request_data;
    if let Some(url) = &args.url_manual {
        if !is_url(url.as_str()) {
            return Err(ParseError::InvalidUrl(url.clone()));
        }
        request_data.url = Some(url.clone());
    }
    Ok(request_data)
}

/// Applies `--method`.
pub fn method_manual(args: &ArgValues, request_data: OptionalRequestData) -> (r: Result<
    OptionalRequestData,
    ParseError,
>)
    ensures
        data_result_is(r, method_applied(args.method_manual, request_data@)),
{
    let mut request_data = request_data;
    if let Some(method) = &args.method_manual {
        match METHODS::from_str(method.as_str()) {
            Ok(m) => {
                request_data.method = Some(m);
            },
            Err(_) => {
                return Err(ParseError::UnknownMethod);
            },
        }
    }
    Ok(request_data)
}

/// Applies `--raw`.
pub fn raw_body(args: &ArgValues, request_data: OptionalRequestData) -> (r: Result<
    OptionalRequestData,
    ParseError,
>)
    ensures
        data_result_is(r, raw_applied(args.raw, request_data@)),
{
    let mut request_data = request_data;
    if let Some(raw) = &args.raw {
        if request_data.body.is_some() {
            return Err(ParseError::RawWithBody);
        }
        if let Some(message) = json_error(raw.as_str()) {
            return Err(ParseError::InvalidRawBody(message));
        }
        request_data.body = Some(raw.clone());
    }
    Ok(request_data)
}

/// The saving command that `--save-as` adds: the data saved under the
/// name given.
pub open spec fn save_as_commands(args: ArgValues, d: OptionalModel) -> Seq<CliCommandModel> {
    match args.save_as {
        Some(name) => seq![CliCommandModel::SaveRequest { request_name: name@, request: d }],
        None => Seq::empty(),
    }
}

/// The saving command that `--save` adds: the data saved onto the request
/// that runs.
pub open spec fn save_commands(args: ArgValues, d: OptionalModel, name: Seq<char>) -> Seq<
    CliCommandModel,
> {
    if args.save == Some(true) {
        seq![
            CliCommandModel::SaveRequestWithBaseRequest {
                request_name: name,
                base_request_name: Some(name),
                request_data: d,
            },
        ]
    } else {
        Seq::empty()
    }
}

/// The command that `--save-as` adds.
pub fn save_as(args: &ArgValues, request_data: OptionalRequestData) -> (r: Vec<CliCommandChoice>)
    ensures
        cli_commands_view(r@) == save_as_commands(*args, request_data@),
{
    let mut out: Vec<CliCommandChoice> = Vec::new();
    if let Some(request_name) = &args.save_as {
        out.push(
            CliCommandChoice::SaveRequest { request_name: request_name.clone(), request: request_data },
        );
    }
    proof {
        assert(cli_commands_view(out@) =~= save_as_commands(*args, request_data@));
    }
    out
}

/// The command that `--save` adds.
pub fn save(args: &ArgValues, request_data: OptionalRequestData, request_name: String) -> (r: Vec<
    CliCommandChoice,
>)
    ensures
        cli_commands_view(r@) == save_commands(*args, request_data@, request_name@),
{
    let mut out: Vec<CliCommandChoice> = Vec::new();
    if args.save == Some(true) {
        out.push(
            CliCommandChoice::SaveRequestWithBaseRequest {
                base_request_name: Some(request_name.clone()),
                request_name,
                request_data,
            },
        );
    }
    proof {
        assert(cli_commands_view(out@) =~= save_commands(*args, request_data@, request_name@));
    }
    out
}

/// All the inputs, or an error where there are none.
pub fn get_inputs_from_clap_matches(args: &ArgValues) -> (r: Result<&Vec<String>, ParseError>)
    ensures
        match args.inputs {
            Some(v) => r == Ok::<&Vec<String>, ParseError>(&v),
            None => r == Err::<&Vec<String>, ParseError>(ParseError::NoInputs),
        },
{
    match &args.inputs {
        Some(v) => Ok(v),
        None => Err(ParseError::NoInputs),
    }
}

/// The first input and the rest, or an error where there are none. The
/// parser's definition gives at least one input where it gives any.
pub fn get_inputs_from_clap_matches_splitted(args: &ArgValues) -> (r: Result<
    (String, Vec<String>),
    ParseError,
>)
    requires
        args.inputs matches Some(v) ==> v.len() >= 1,
    ensures
        match args.inputs {
            Some(v) => r matches Ok(p) && p.0 == v[0] && strings_view(p.1@) == strings_view(
                v@,
            ).skip(1),
            None => r == Err::<(String, Vec<String>), ParseError>(ParseError::NoInputs),
        },
{
    let inputs = get_inputs_from_clap_matches(args)?;
    let first = inputs[0].clone();
    let mut rest: Vec<String> = Vec::new();
    let mut i: usize = 1;
    while i < inputs.len()
        invariant
            1 <= i <= inputs.len(),
            strings_view(rest@) == strings_view(inputs@).subrange(1, i as int),
        decreases inputs.len() - i,
    {
        let ghost before = rest@;
        let item = inputs[i].clone();
        rest.push(item);
        proof {
            assert(strings_view(rest@) =~= strings_view(before).push(item@));
            assert(strings_view(inputs@).subrange(1, i + 1) =~= strings_view(inputs@).subrange(
                1,
                i as int,
            ).push(inputs@[i as int]@));
        }
        i = i + 1;
    }
    proof {
        assert(strings_view(inputs@).subrange(1, inputs.len() as int) =~= strings_view(
            inputs@,
        ).skip(1));
    }
    Ok((first, rest))
}

/// `--url`, `--method` and `--raw` applied in turn.
pub open spec fn options_applied(args: ArgValues, d: OptionalModel) -> Result<
    OptionalModel,
    ParseErrorModel,
> {
    match url_applied(args.url_manual, d) {
        Err(e) => Err(e),
        Ok(d1) => match method_applied(args.method_manual, d1) {
            Err(e) => Err(e),
            Ok(d2) => raw_applied(args.raw, d2),
        },
    }
}

/// The items after the first input.
pub open spec fn rest_items(v: Vec<String>) -> Seq<Seq<char>> {
    strings_view(v@).skip(1)
}

/// Whether optional data holds nothing.
pub open spec fn data_is_empty(d: OptionalModel) -> bool {
    d.url is None && d.method is None && d.headers is None && d.body is None
}

/// The command that sends a saved request: with the data given on top
/// where there is some.
pub open spec fn submit_saved_command(name: Seq<char>, d: OptionalModel) -> CliCommandModel {
    if data_is_empty(d) {
        CliCommandModel::SubmitSavedRequest { request_name: name }
    } else {
        CliCommandModel::SubmitSavedRequestWithAdditionalData { request_name: name, request_data: d }
    }
}

/// The commands that the arguments ask for, or the error they lead to.
pub open spec fn subcommand_commands_of(args: ArgValues) -> Result<
    Seq<CliCommandModel>,
    ParseErrorModel,
> {
    match args.subcommand {
        None => match args.inputs {
            None => Err(ParseErrorModel::NoInputs),
            Some(v) => if !is_url_text(v[0]@) {
                Err(ParseErrorModel::InvalidUrl(v[0]@))
            } else {
                let d0 = data_of_items(rest_items(v));
                let d = OptionalModel {
                    url: Some(v[0]@),
                    method: Some(
                        if d0.body is Some {
                            METHODS::POST
                        } else {
                            METHODS::GET
                        },
                    ),
                    ..d0
                };
                Ok(
                    save_as_commands(args, d).push(
                        CliCommandModel::SubmitRequest { request: optional_complete(d) },
                    ),
                )
            },
        },
        Some(name) => if is_method_subcommand(name@) {
            match args.inputs {
                None => Err(ParseErrorModel::NoInputs),
                Some(v) => if !is_url_text(v[0]@) {
                    Err(ParseErrorModel::InvalidUrl(v[0]@))
                } else {
                    let method = method_named(name@)->0;
                    let d1 = OptionalModel {
                        url: Some(v[0]@),
                        method: Some(method),
                        ..data_of_items(rest_items(v))
                    };
                    let d2 = if method == METHODS::GET {
                        OptionalModel { body: None, ..d1 }
                    } else {
                        d1
                    };
                    match raw_applied(args.raw, d2) {
                        Err(e) => Err(e),
                        Ok(d) => Ok(
                            save_as_commands(args, d).push(
                                CliCommandModel::SubmitRequest { request: optional_complete(d) },
                            ),
                        ),
                    }
                },
            }
        } else if name@ == "edit"@ {
            match args.inputs {
                None => Err(ParseErrorModel::NoInputs),
                Some(v) => match options_applied(args, data_of_items(rest_items(v))) {
                    Err(e) => Err(e),
                    Ok(d) => Ok(
                        save_as_commands(args, d).push(
                            CliCommandModel::SaveRequest { request_name: v[0]@, request: d },
                        ),
                    ),
                },
            }
        } else if name@ == "rename"@ {
            match args.inputs {
                None => Err(ParseErrorModel::NoInputs),
                Some(v) => Ok(
                    seq![
                        CliCommandModel::RenameSavedRequest {
                            request_name: v[0]@,
                            new_name: v[1]@,
                        },
                    ],
                ),
            }
        } else if name@ == "remove"@ {
            match args.inputs {
                None => Err(ParseErrorModel::NoInputs),
                Some(v) => Ok(seq![CliCommandModel::RemoveSavedRequest { request_name: v[0]@ }]),
            }
        } else if name@ == "ls"@ {
            Ok(seq![CliCommandModel::ShowRequests])
        } else if name@ == "inspect"@ {
            match args.inputs {
                None => Err(ParseErrorModel::NoInputs),
                Some(v) => Ok(seq![CliCommandModel::InspectRequest { request_name: v[0]@ }]),
            }
        } else if name@ == "run"@ {
            match args.inputs {
                None => Err(ParseErrorModel::NoInputs),
                Some(v) => match options_applied(args, data_of_items(rest_items(v))) {
                    Err(e) => Err(e),
                    Ok(d) => Ok(
                        save_as_commands(args, d) + save_commands(args, d, v[0]@) + seq![
                            submit_saved_command(v[0]@, d),
                        ],
                    ),
                },
            }
        } else {
            Err(ParseErrorModel::NoValidSubcommand)
        },
    }
}

/// The items that are not body items (`key=value`), in order.
pub open spec fn non_body_items(items: Seq<Seq<char>>) -> Seq<Seq<char>>
    decreases items.len(),
{
    if items.len() == 0 {
        items
    } else {
        let rest = non_body_items(items.drop_last());
        if is_item_of_kind(items.last(), ItemKind::Body) {
            rest
        } else {
            rest.push(items.last())
        }
    }
}

/// The items without their body items give the same headers and no body
/// field.
proof fn lemma_non_body_items(items: Seq<Seq<char>>)
    ensures
        item_headers(non_body_items(items)) == item_headers(items),
        item_body_entries(non_body_items(items)).len() == 0,
    decreases items.len(),
{
    if items.len() > 0 {
        let init = items.drop_last();
        let x = items.last();
        lemma_non_body_items(init);
        if !is_item_of_kind(x, ItemKind::Body) {
            let rest = non_body_items(init);
            assert(rest.push(x).drop_last() =~= rest);
            assert(rest.push(x).last() == x);
        }
    }
}

/// Law: body items `key=value` give the request data that the same items
/// without them give with, as `--raw` body, the JSON object of their fields
/// in the order of their keys, where serde_json reads that text.
pub proof fn lemma_body_items_as_raw(items: Seq<Seq<char>>, raw: String)
    requires
        item_body_entries(items).len() > 0,
        raw@ == json_object_text(sorted_pairs(item_body_entries(items))),
        serde_value_error(raw@) is None,
    ensures
        raw_applied(Some(raw), data_of_items(non_body_items(items))) == Ok::<
            OptionalModel,
            ParseErrorModel,
        >(data_of_items(items)),
{
    lemma_non_body_items(items);
}

/// Law: a method subcommand other than `GET` with body items `key=value`
/// gives the commands that it gives with the other items and, as `--raw`,
/// the JSON object of the fields in the order of their keys, where
/// serde_json reads that text.
pub proof fn lemma_subcommand_body_items_as_raw(with_items: ArgValues, with_raw: ArgValues)
    requires
        with_items.subcommand matches Some(name) && is_method_subcommand(name@) && name@
            != "GET"@,
        with_raw.subcommand == with_items.subcommand,
        with_items.inputs matches Some(v) && v.len() >= 1,
        with_raw.inputs matches Some(w) && w.len() >= 1,
        with_raw.inputs->0[0]@ == with_items.inputs->0[0]@,
        rest_items(with_raw.inputs->0) == non_body_items(rest_items(with_items.inputs->0)),
        item_body_entries(rest_items(with_items.inputs->0)).len() > 0,
        with_items.raw is None,
        with_raw.raw matches Some(t) && t@ == json_object_text(
            sorted_pairs(item_body_entries(rest_items(with_items.inputs->0))),
        ) && serde_value_error(t@) is None,
        with_raw.save_as == with_items.save_as,
    ensures
        subcommand_commands_of(with_raw) == subcommand_commands_of(with_items),
{
    let items = rest_items(with_items.inputs->0);
    lemma_body_items_as_raw(items, with_raw.raw->0);
}

/// Turns the arguments into the commands to run: a request without a
/// subcommand or with a method's, or a command on saved requests. The
/// parser's definition gives at least one input where it gives any, and
/// two to `rename`.
pub fn parse_clap_input_to_commands(args: ArgValues) -> (r: Result<
    Vec<CliCommandChoice>,
    ParseError,
>)
    requires
        args.inputs matches Some(v) ==> v.len() >= 1,
        args.subcommand matches Some(n) && n@ == "rename"@ ==> (args.inputs matches Some(v)
            ==> v.len() >= 2),
    ensures
        match subcommand_commands_of(args) {
            Ok(cs) => r matches Ok(v) && cli_commands_view(v@) == cs,
            Err(e) => result_matches(r, e),
        },
{
    let args = &args;
    match &args.subcommand {
        None => {
            let (url, inputs_data) = get_inputs_from_clap_matches_splitted(args)?;
            if !is_url(url.as_str()) {
                return Err(ParseError::InvalidUrl(url));
            }
            let mut request_data = parse_list_of_data_to_request_data(&inputs_data);
            request_data.url = Some(url);
            request_data.method = if request_data.body.is_some() {
                Some(METHODS::POST)
            } else {
                Some(METHODS::GET)
            };
            let mut commands = save_as(args, request_data.duplicate());
            let ghost saved = commands@;
            let submit = CliCommandChoice::SubmitRequest { request: request_data.to_request_data() };
            commands.push(submit);
            proof {
                assert(cli_commands_view(commands@) =~= cli_commands_view(saved).push(submit@));
            }
            Ok(commands)
        },
        Some(name) => {
            let name = name.as_str();
            if str_eq(name, "GET") || str_eq(name, "POST") || str_eq(name, "PUT") || str_eq(
                name,
                "DELETE",
            ) || str_eq(name, "HEAD") || str_eq(name, "PATCH") {
                let (url, inputs_data) = get_inputs_from_clap_matches_splitted(args)?;
                if !is_url(url.as_str()) {
                    return Err(ParseError::InvalidUrl(url));
                }
                let mut request_data = parse_list_of_data_to_request_data(&inputs_data);
                request_data.url = Some(url);
                let method = match METHODS::from_str(name) {
                    Ok(m) => m,
                    Err(_) => {
                        return Err(ParseError::UnknownMethod);
                    },
                };
                request_data.method = Some(method);
                if method == METHODS::GET {
                    request_data.body = None;
                }
                let request_data = raw_body(args, request_data)?;
                let mut commands = save_as(args, request_data.duplicate());
                let ghost saved = commands@;
                let submit = CliCommandChoice::SubmitRequest {
                    request: request_data.to_request_data(),
                };
                commands.push(submit);
                proof {
                    assert(cli_commands_view(commands@) =~= cli_commands_view(saved).push(
                        submit@,
                    ));
                }
                Ok(commands)
            } else if str_eq(name, "edit") {
                let (request_name, inputs_data) = get_inputs_from_clap_matches_splitted(args)?;
                let request_data = parse_list_of_data_to_request_data(&inputs_data);
                let request_data = url_manual(args, request_data)?;
                let request_data = method_manual(args, request_data)?;
                let request_data = raw_body(args, request_data)?;
                let mut commands = save_as(args, request_data.duplicate());
                let ghost saved = commands@;
                let edit = CliCommandChoice::SaveRequest { request_name, request: request_data };
                commands.push(edit);
                proof {
                    assert(cli_commands_view(commands@) =~= cli_commands_view(saved).push(edit@));
                }
                Ok(commands)
            } else if str_eq(name, "rename") {
                let inputs = get_inputs_from_clap_matches(args)?;
                let mut commands: Vec<CliCommandChoice> = Vec::new();
                commands.push(
                    CliCommandChoice::RenameSavedRequest {
                        request_name: inputs[0].clone(),
                        new_name: inputs[1].clone(),
                    },
                );
                proof {
                    assert(cli_commands_view(commands@) =~= subcommand_commands_of(*args)->Ok_0);
                }
                Ok(commands)
            } else if str_eq(name, "remove") {
                let inputs = get_inputs_from_clap_matches(args)?;
                let mut commands: Vec<CliCommandChoice> = Vec::new();
                commands.push(CliCommandChoice::RemoveSavedRequest { request_name: inputs[0].clone() });
                proof {
                    assert(cli_commands_view(commands@) =~= subcommand_commands_of(*args)->Ok_0);
                }
                Ok(commands)
            } else if str_eq(name, "ls") {
                let mut commands: Vec<CliCommandChoice> = Vec::new();
                commands.push(CliCommandChoice::ShowRequests);
                proof {
                    assert(cli_commands_view(commands@) =~= subcommand_commands_of(*args)->Ok_0);
                }
                Ok(commands)
            } else if str_eq(name, "inspect") {
                let inputs = get_inputs_from_clap_matches(args)?;
                let mut commands: Vec<CliCommandChoice> = Vec::new();
                commands.push(CliCommandChoice::InspectRequest { request_name: inputs[0].clone() });
                proof {
                    assert(cli_commands_view(commands@) =~= subcommand_commands_of(*args)->Ok_0);
                }
                Ok(commands)
            } else if str_eq(name, "run") {
                let (request_name, inputs_data) = get_inputs_from_clap_matches_splitted(args)?;
                let request_data = parse_list_of_data_to_request_data(&inputs_data);
                let request_data = url_manual(args, request_data)?;
                let request_data = method_manual(args, request_data)?;
                let request_data = raw_body(args, request_data)?;
                let mut commands = save_as(args, request_data.duplicate());
                let ghost first = commands@;
                let mut saving = save(args, request_data.duplicate(), request_name.clone());
                let ghost second = saving@;
                commands.append(&mut saving);
                let empty = request_data.url.is_none() && request_data.method.is_none()
                    && request_data.headers.is_none() && request_data.body.is_none();
                let submit = if empty {
                    CliCommandChoice::SubmitSavedRequest { request_name }
                } else {
                    CliCommandChoice::SubmitSavedRequestWithAdditionalData {
                        request_name,
                        request_data,
                    }
                };
                commands.push(submit);
                proof {
                    assert(cli_commands_view(commands@) =~= cli_commands_view(first)
                        + cli_commands_view(second) + seq![submit@]);
                }
                Ok(commands)
            } else {
                Err(ParseError::NoValidSubcommand)
            }
        },
    }
}

} // verus!
