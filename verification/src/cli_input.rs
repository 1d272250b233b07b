use vstd::prelude::*;

use crate::json::strings_view;
use crate::methods::{method_named, METHODS};
use crate::text::str_eq;

verus! {

broadcast use vstd::string::group_string_axioms;

/// How the result of a command is shown.
#[derive(Debug, Clone, Copy, PartialEq, Eq, Structural)]
pub struct ViewOptions {
    pub print_body_only: bool,
    pub suppress_output: bool,
}

impl ViewOptions {
    /// Everything shown.
    pub fn default() -> (r: ViewOptions)
        ensures
            !r.print_body_only,
            !r.suppress_output,
    {
        ViewOptions { print_body_only: false, suppress_output: false }
    }
}

/// The command the user chose.
#[derive(Debug, PartialEq, Eq)]
pub enum CliCommandChoice {
    DefaultBasicRequest { url: String },
    BasicRequest { method: METHODS, url: String },
    Run { request_name: String, save: bool },
    Edit { request_name: String },
    Remove { request_name: String },
    Rename { request_name: String, new_name: String, has_to_confirm: bool },
    Inspect { request_name: String },
    Ls,
}

/// The options that shape the request.
#[derive(Debug, PartialEq, Eq)]
pub struct RequestBuildingOptions {
    pub request_items: Vec<String>,
    pub raw_body: Option<String>,
    pub url_manual: Option<String>,
    pub method_manual: Option<METHODS>,
}

/// The options about saving the request.
#[derive(Debug, PartialEq, Eq)]
pub struct SavingOptions {
    pub save_as: Option<String>,
}

/// Everything the command line asked for.
#[derive(Debug, PartialEq, Eq)]
pub struct CliInput {
    pub choice: CliCommandChoice,
    pub request_input: RequestBuildingOptions,
    pub save_options: SavingOptions,
    pub view_options: ViewOptions,
}

/// The model of a chosen command: its strings as character sequences.
pub enum ChoiceModel {
    DefaultBasicRequest { url: Seq<char> },
    BasicRequest { method: METHODS, url: Seq<char> },
    Run { request_name: Seq<char>, save: bool },
    Edit { request_name: Seq<char> },
    Remove { request_name: Seq<char> },
    Rename { request_name: Seq<char>, new_name: Seq<char>, has_to_confirm: bool },
    Inspect { request_name: Seq<char> },
    Ls,
}

impl View for CliCommandChoice {
    type V = ChoiceModel;

    open spec fn view(&self) -> ChoiceModel {
        match self {
            CliCommandChoice::DefaultBasicRequest { url } => ChoiceModel::DefaultBasicRequest {
                url: url@,
            },
            CliCommandChoice::BasicRequest { method, url } => ChoiceModel::BasicRequest {
                method: *method,
                url: url@,
            },
            CliCommandChoice::Run { request_name, save } => ChoiceModel::Run {
                request_name: request_name@,
                save: *save,
            },
            CliCommandChoice::Edit { request_name } => ChoiceModel::Edit {
                request_name: request_name@,
            },
            CliCommandChoice::Remove { request_name } => ChoiceModel::Remove {
                request_name: request_name@,
            },
            CliCommandChoice::Rename { request_name, new_name, has_to_confirm } => {
                ChoiceModel::Rename {
                    request_name: request_name@,
                    new_name: new_name@,
                    has_to_confirm: *has_to_confirm,
                }
            },
            CliCommandChoice::Inspect { request_name } => ChoiceModel::Inspect {
                request_name: request_name@,
            },
            CliCommandChoice::Ls => ChoiceModel::Ls,
        }
    }
}

/// The model of what the command line asks for.
pub struct InputModel {
    pub choice: ChoiceModel,
    pub request_items: Seq<Seq<char>>,
    pub raw_body: Option<Seq<char>>,
    pub url_manual: Option<Seq<char>>,
    pub method_manual: Option<METHODS>,
    pub save_as: Option<Seq<char>>,
    pub view_options: ViewOptions,
}

/// The character sequence of an optional string.
pub open spec fn opt_chars(s: Option<String>) -> Option<Seq<char>> {
    match s {
        Some(s) => Some(s@),
        None => None,
    }
}

impl View for CliInput {
    type V = InputModel;

    open spec fn view(&self) -> InputModel {
        InputModel {
            choice: self.choice@,
            request_items: strings_view(self.request_input.request_items@),
            raw_body: opt_chars(self.request_input.raw_body),
            url_manual: opt_chars(self.request_input.url_manual),
            method_manual: self.request_input.method_manual,
            save_as: opt_chars(self.save_options.save_as),
            view_options: self.view_options,
        }
    }
}

/// The values that the command line parser found: the subcommand, if any,
/// and the arguments of the command that runs (the subcommand's, else the
/// top level's).
#[derive(Debug, PartialEq, Eq)]
pub struct ArgValues {
    pub subcommand: Option<String>,
    pub inputs: Option<Vec<String>>,
    pub request_items: Option<Vec<String>>,
    pub raw: Option<String>,
    pub url_manual: Option<String>,
    pub method_manual: Option<String>,
    pub save_as: Option<String>,
    pub save: Option<bool>,
    pub no_confirm: bool,
}

/// The errors of reading the command line and checking what it asks for.
#[derive(Debug, Clone, Copy, PartialEq, Eq, Structural)]
pub enum InputError {
    /// The command needs an input and none was given.
    NoInputGiven,
    /// The command needs inputs and none were given.
    NoInputsGiven,
    /// The subcommand is not one the program has.
    NoValidSubcommand,
    /// A raw body that is not a JSON object, together with body items.
    RawBodyNotAnObject,
}

/// The message of an error.
pub open spec fn input_error_message(e: InputError) -> Seq<char> {
    match e {
        InputError::NoInputGiven => "No input given"@,
        InputError::NoInputsGiven => "No inputs given"@,
        InputError::NoValidSubcommand => "No valid subcommand"@,
        InputError::RawBodyNotAnObject => "raw body must be a valid JSON object"@,
    }
}

impl InputError {
    /// The message that describes the error.
    pub fn message(&self) -> (r: &'static str)
        ensures
            r@ == input_error_message(*self),
    {
        match self {
            InputError::NoInputGiven => "No input given",
            InputError::NoInputsGiven => "No inputs given",
            InputError::NoValidSubcommand => "No valid subcommand",
            InputError::RawBodyNotAnObject => "raw body must be a valid JSON object",
        }
    }
}

/// The first input, or an error where there is none.
pub fn get_input(args: &ArgValues) -> (r: Result<String, InputError>)
    ensures
        match args.inputs {
            Some(v) => v.len() > 0 && r == Ok::<String, InputError>(v[0]) || v.len() == 0 && r
                == Err::<String, InputError>(InputError::NoInputGiven),
            None => r == Err::<String, InputError>(InputError::NoInputGiven),
        },
{
    match &args.inputs {
        Some(v) => if v.len() > 0 {
            Ok(v[0].clone())
        } else {
            Err(InputError::NoInputGiven)
        },
        None => Err(InputError::NoInputGiven),
    }
}

/// All the inputs, or an error where there are none.
pub fn get_many_inputs(args: &ArgValues) -> (r: Result<&Vec<String>, InputError>)
    ensures
        match args.inputs {
            Some(v) => r == Ok::<&Vec<String>, InputError>(&v),
            None => r == Err::<&Vec<String>, InputError>(InputError::NoInputsGiven),
        },
{
    match &args.inputs {
        Some(v) => Ok(v),
        None => Err(InputError::NoInputsGiven),
    }
}

/// Whether request options are the ones found in the arguments.
pub open spec fn request_options_of(args: ArgValues, r: RequestBuildingOptions) -> bool {
    &&& r.request_items@ == match args.request_items {
        Some(v) => v@,
        None => Seq::empty(),
    }
    &&& r.raw_body == args.raw
    &&& r.url_manual == args.url_manual
    &&& r.method_manual == match args.method_manual {
        Some(m) => method_named(m@),
        None => None,
    }
}

impl RequestBuildingOptions {
    /// The request options found on the command line; a method that names
    /// no method is left out.
    pub fn from_clap_matches(args: &ArgValues) -> (r: RequestBuildingOptions)
        ensures
            request_options_of(*args, r),
    {
        let request_items = match &args.request_items {
            Some(v) => v.clone(),
            None => Vec::new(),
        };
        let method_manual = match &args.method_manual {
            Some(m) => match METHODS::from_str(m.as_str()) {
                Ok(method) => Some(method),
                Err(_) => None,
            },
            None => None,
        };
        RequestBuildingOptions {
            request_items,
            raw_body: args.raw.clone(),
            url_manual: args.url_manual.clone(),
            method_manual,
        }
    }
}

impl SavingOptions {
    /// The saving options found on the command line.
    pub fn from_clap_matches(args: &ArgValues) -> (r: SavingOptions)
        ensures
            r.save_as == args.save_as,
    {
        SavingOptions { save_as: args.save_as.clone() }
    }
}

/// Whether a subcommand names an HTTP method.
pub open spec fn is_method_subcommand(name: Seq<char>) -> bool {
    name == "GET"@ || name == "POST"@ || name == "PUT"@ || name == "DELETE"@ || name == "HEAD"@
        || name == "PATCH"@
}

/// The first input of the arguments.
pub open spec fn first_input(args: ArgValues) -> Option<String> {
    match args.inputs {
        Some(v) => if v.len() > 0 {
            Some(v[0])
        } else {
            None
        },
        None => None,
    }
}

/// The command that the arguments choose, or the error they lead to.
pub open spec fn choice_of(args: ArgValues) -> Result<CliCommandChoice, InputError> {
    match args.subcommand {
        None => match first_input(args) {
            Some(url) => Ok(CliCommandChoice::DefaultBasicRequest { url }),
            None => Err(InputError::NoInputGiven),
        },
        Some(name) => if name@ == "edit"@ {
            match first_input(args) {
                Some(request_name) => Ok(CliCommandChoice::Edit { request_name }),
                None => Err(InputError::NoInputGiven),
            }
        } else if name@ == "rename"@ {
            match args.inputs {
                Some(v) => Ok(
                    CliCommandChoice::Rename {
                        request_name: v[0],
                        new_name: v[1],
                        has_to_confirm: !args.no_confirm,
                    },
                ),
                None => Err(InputError::NoInputsGiven),
            }
        } else if name@ == "remove"@ {
            match first_input(args) {
                Some(request_name) => Ok(CliCommandChoice::Remove { request_name }),
                None => Err(InputError::NoInputGiven),
            }
        } else if name@ == "ls"@ {
            Ok(CliCommandChoice::Ls)
        } else if name@ == "inspect"@ {
            match first_input(args) {
                Some(request_name) => Ok(CliCommandChoice::Inspect { request_name }),
                None => Err(InputError::NoInputGiven),
            }
        } else if name@ == "run"@ {
            match first_input(args) {
                Some(request_name) => Ok(
                    CliCommandChoice::Run {
                        request_name,
                        save: match args.save {
                            Some(b) => b,
                            None => false,
                        },
                    },
                ),
                None => Err(InputError::NoInputGiven),
            }
        } else if is_method_subcommand(name@) {
            match first_input(args) {
                Some(url) => Ok(
                    CliCommandChoice::BasicRequest { method: method_named(name@)->0, url },
                ),
                None => Err(InputError::NoInputGiven),
            }
        } else {
            Err(InputError::NoValidSubcommand)
        },
    }
}

proof fn lemma_method_subcommand_named(name: Seq<char>)
    requires
        is_method_subcommand(name),
    ensures
        method_named(name) is Some,
{
}

impl CliInput {
    /// Reads what the command line asks for. The `rename` subcommand comes
    /// with two inputs, as the parser's definition demands.
    pub fn from_clap_matches(args: &ArgValues) -> (r: Result<CliInput, InputError>)
        requires
            args.subcommand matches Some(n) && n@ == "rename"@ ==> (args.inputs matches Some(v)
                ==> v.len() >= 2),
        ensures
            match choice_of(*args) {
                Ok(choice) => r matches Ok(input) && input.choice == choice
                    && request_options_of(*args, input.request_input)
                    && input.save_options.save_as == args.save_as && input.view_options
                    == ViewOptions { print_body_only: false, suppress_output: false },
                Err(e) => r == Err::<CliInput, InputError>(e),
            },
    {
        let request_input = RequestBuildingOptions::from_clap_matches(args);
        let save_options = SavingOptions::from_clap_matches(args);
        let view_options = ViewOptions::default();
        let choice = match &args.subcommand {
            None => {
                let url = get_input(args)?;
                CliCommandChoice::DefaultBasicRequest { url }
            },
            Some(name) => {
                let name = name.as_str();
                if str_eq(name, "edit") {
                    let request_name = get_input(args)?;
                    CliCommandChoice::Edit { request_name }
                } else if str_eq(name, "rename") {
                    let inputs = get_many_inputs(args)?;
                    CliCommandChoice::Rename {
                        request_name: inputs[0].clone(),
                        new_name: inputs[1].clone(),
                        has_to_confirm: !args.no_confirm,
                    }
                } else if str_eq(name, "remove") {
                    let request_name = get_input(args)?;
                    CliCommandChoice::Remove { request_name }
                } else if str_eq(name, "ls") {
                    CliCommandChoice::Ls
                } else if str_eq(name, "inspect") {
                    let request_name = get_input(args)?;
                    CliCommandChoice::Inspect { request_name }
                } else if str_eq(name, "run") {
                    let request_name = get_input(args)?;
                    let save = match args.save {
                        Some(b) => b,
                        None => false,
                    };
                    CliCommandChoice::Run { request_name, save }
                } else if str_eq(name, "GET") || str_eq(name, "POST") || str_eq(name, "PUT")
                    || str_eq(name, "DELETE") || str_eq(name, "HEAD") || str_eq(name, "PATCH") {
                    let url = get_input(args)?;
                    proof {
                        lemma_method_subcommand_named(name@);
                    }
                    let method = match METHODS::from_str(name) {
                        Ok(m) => m,
                        Err(_) => {
                            return Err(InputError::NoValidSubcommand);
                        },
                    };
                    CliCommandChoice::BasicRequest { method, url }
                } else {
                    return Err(InputError::NoValidSubcommand);
                }
            },
        };
        Ok(CliInput { choice, request_input, save_options, view_options })
    }
}

} // verus!
