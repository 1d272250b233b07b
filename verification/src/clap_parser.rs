use vstd::prelude::*;

use crate::json::strings_view;
use crate::methods::METHODS;
use crate::request::{
    body_of, header_insert, headers_unique, insert_header, lemma_header_insert_unique, RequestData,
    RequestModel,
};
use crate::text::{find_char, first_index_from, lemma_first_index_from, owned, slice};
use crate::url::{pairs_of, url_of};

verus! {

broadcast use vstd::string::group_string_axioms;

/// The arguments of the command line: a URL given on its own, or a
/// subcommand that names the method, with the request options.
#[derive(Debug, PartialEq, Eq)]
pub struct CliArgs {
    pub url_manual: Option<String>,
    pub command: Option<Commands>,
    pub body: Option<String>,
    pub header: Vec<String>,
    pub json: bool,
}

/// The subcommands, one per method, each with its URL and request options.
#[derive(Debug, PartialEq, Eq)]
pub enum Commands {
    GET { url: String, body: Option<String>, header: Vec<String>, json: bool },
    POST { url: String, body: Option<String>, header: Vec<String>, json: bool },
    PUT { url: String, body: Option<String>, header: Vec<String>, json: bool },
    PATCH { url: String, body: Option<String>, header: Vec<String>, json: bool },
    DELETE { url: String, body: Option<String>, header: Vec<String>, json: bool },
    OPTIONS { url: String, body: Option<String>, header: Vec<String>, json: bool },
    HEAD { url: String, body: Option<String>, header: Vec<String>, json: bool },
}

/// What the program is asked to do.
#[derive(Debug, PartialEq, Eq)]
pub enum AppCommand {
    BasicRequest { req: RequestData },
}

/// A `key=value` header argument split at its first `=`; none without one.
pub open spec fn header_arg_pair(s: Seq<char>) -> Option<(Seq<char>, Seq<char>)> {
    match first_index_from(s, '=', 0) {
        Some(i) => Some((s.take(i), s.skip(i + 1))),
        None => None,
    }
}

/// The headers that `key=value` arguments give, in order: a later value of
/// a name replaces an earlier one, and arguments without `=` are left out.
pub open spec fn headers_from_args(args: Seq<Seq<char>>) -> Seq<(Seq<char>, Seq<char>)>
    decreases args.len(),
{
    if args.len() == 0 {
        Seq::empty()
    } else {
        let hs = headers_from_args(args.drop_last());
        match header_arg_pair(args.last()) {
            Some(p) => header_insert(hs, p.0, p.1),
            None => hs,
        }
    }
}

/// Law: the headers that `key=value` arguments give name each header once.
pub proof fn lemma_headers_from_args_unique(args: Seq<Seq<char>>)
    ensures
        headers_unique(headers_from_args(args)),
    decreases args.len(),
{
    if args.len() > 0 {
        lemma_headers_from_args_unique(args.drop_last());
        match header_arg_pair(args.last()) {
            Some(p) => lemma_header_insert_unique(headers_from_args(args.drop_last()), p.0, p.1),
            None => {},
        }
    }
}

/// The request that a method, URL and request options describe; `json`
/// binds `Content-Type` to `application/json`, a missing body is empty.
pub open spec fn request_of_params(
    method: METHODS,
    url: Seq<char>,
    body: Option<Seq<char>>,
    header: Seq<Seq<char>>,
    json: bool,
) -> RequestModel {
    let hs = headers_from_args(header);
    RequestModel {
        url: url_of(url),
        method,
        headers: if json {
            header_insert(hs, "Content-Type"@, "application/json"@)
        } else {
            hs
        },
        body: body_of(
            match body {
                Some(b) => b,
                None => Seq::empty(),
            },
        ),
    }
}

/// The character sequence of an optional string.
pub open spec fn opt_view(s: Option<String>) -> Option<Seq<char>> {
    match s {
        Some(s) => Some(s@),
        None => None,
    }
}

/// The method a subcommand sends: the one it is named after.
pub open spec fn command_method(c: Commands) -> METHODS {
    match c {
        Commands::GET { .. } => METHODS::GET,
        Commands::POST { .. } => METHODS::POST,
        Commands::PUT { .. } => METHODS::PUT,
        Commands::PATCH { .. } => METHODS::PATCH,
        Commands::DELETE { .. } => METHODS::DELETE,
        Commands::OPTIONS { .. } => METHODS::OPTIONS,
        Commands::HEAD { .. } => METHODS::HEAD,
    }
}

/// The request that a subcommand describes.
pub open spec fn command_request(c: Commands) -> RequestModel {
    match c {
        Commands::GET { url, body, header, json } => request_of_params(
            METHODS::GET,
            url@,
            opt_view(body),
            strings_view(header@),
            json,
        ),
        Commands::POST { url, body, header, json } => request_of_params(
            METHODS::POST,
            url@,
            opt_view(body),
            strings_view(header@),
            json,
        ),
        Commands::PUT { url, body, header, json } => request_of_params(
            METHODS::PUT,
            url@,
            opt_view(body),
            strings_view(header@),
            json,
        ),
        Commands::PATCH { url, body, header, json } => request_of_params(
            METHODS::PATCH,
            url@,
            opt_view(body),
            strings_view(header@),
            json,
        ),
        Commands::DELETE { url, body, header, json } => request_of_params(
            METHODS::DELETE,
            url@,
            opt_view(body),
            strings_view(header@),
            json,
        ),
        Commands::OPTIONS { url, body, header, json } => request_of_params(
            METHODS::OPTIONS,
            url@,
            opt_view(body),
            strings_view(header@),
            json,
        ),
        Commands::HEAD { url, body, header, json } => request_of_params(
            METHODS::HEAD,
            url@,
            opt_view(body),
            strings_view(header@),
            json,
        ),
    }
}

/// Law: the request of a method, URL and request options names each header
/// once.
pub proof fn lemma_request_of_params_unique(
    method: METHODS,
    url: Seq<char>,
    body: Option<Seq<char>>,
    header: Seq<Seq<char>>,
    json: bool,
)
    ensures
        headers_unique(request_of_params(method, url, body, header, json).headers),
{
    lemma_headers_from_args_unique(header);
    lemma_header_insert_unique(headers_from_args(header), "Content-Type"@, "application/json"@);
}

/// Law: each subcommand sends the method it is named after.
pub proof fn lemma_subcommand_method(c: Commands)
    ensures
        command_request(c).method == command_method(c),
{
}

/// The request that the arguments describe: a URL given on its own makes a
/// `GET` with the top-level options and overrides any subcommand.
pub open spec fn args_request(args: CliArgs) -> RequestModel {
    match args.url_manual {
        Some(url) => request_of_params(
            METHODS::GET,
            url@,
            opt_view(args.body),
            strings_view(args.header@),
            args.json,
        ),
        None => command_request(args.command->0),
    }
}

/// Splits a `key=value` header argument at its first `=`.
pub fn split_header_arg(s: &str) -> (r: Option<(String, String)>)
    ensures
        match header_arg_pair(s@) {
            Some(p) => r matches Some(q) && q.0@ == p.0 && q.1@ == p.1,
            None => r is None,
        },
{
    let len = s.unicode_len();
    match find_char(s, '=', 0) {
        Some(i) => {
            proof {
                lemma_first_index_from(s@, '=', 0);
            }
            let key = slice(s, 0, i);
            let value = slice(s, i + 1, len);
            assert(key@ =~= s@.take(i as int));
            assert(value@ =~= s@.skip(i + 1));
            Some((key, value))
        },
        None => None,
    }
}

/// Builds the request of a method, a URL and the request options.
pub fn build_request_data_with_subcommand_params(
    method: METHODS,
    url: String,
    body: Option<String>,
    header: Vec<String>,
    json: bool,
) -> (r: RequestData)
    ensures
        r@ == request_of_params(method, url@, opt_view(body), strings_view(header@), json),
        headers_unique(r@.headers),
{
    let ghost args = strings_view(header@);
    let mut headers: Vec<(String, String)> = Vec::new();
    let mut i: usize = 0;
    while i < header.len()
        invariant
            i <= header.len(),
            args == strings_view(header@),
            pairs_of(headers@) == headers_from_args(args.take(i as int)),
        decreases header.len() - i,
    {
        let ghost before = args.take(i as int);
        proof {
            assert(args.take(i + 1).drop_last() =~= before);
            assert(args.take(i + 1).last() == header@[i as int]@);
        }
        match split_header_arg(header[i].as_str()) {
            Some((k, v)) => {
                insert_header(&mut headers, k, v);
            },
            None => {},
        }
        i = i + 1;
    }
    assert(args.take(header.len() as int) =~= args);
    if json {
        insert_header(&mut headers, owned("Content-Type"), owned("application/json"));
    }
    let body_text = match body {
        Some(b) => b,
        None => String::new(),
    };
    proof {
        lemma_request_of_params_unique(method, url@, opt_view(body), args, json);
    }
    let mut r = RequestData::default().with_method(method).with_url(url.as_str());
    r.headers = headers;
    r.with_body(body_text.as_str())
}

/// Turns the arguments into the command to run. The parser's definition
/// gives either a URL on its own or a subcommand.
pub fn parse_cli_args_to_app_command(args: CliArgs) -> (r: AppCommand)
    requires
        args.url_manual is Some || args.command is Some,
    ensures
        r matches AppCommand::BasicRequest { req } && req@ == args_request(args),
        r matches AppCommand::BasicRequest { req } && headers_unique(req@.headers),
{
    if let Some(url) = args.url_manual {
        return AppCommand::BasicRequest {
            req: build_request_data_with_subcommand_params(
                METHODS::GET,
                url,
                args.body,
                args.header,
                args.json,
            ),
        };
    }
    let command = args.command.unwrap();
    let request_to_do = match command {
        Commands::GET { url, body, header, json } => build_request_data_with_subcommand_params(
            METHODS::GET,
            url,
            body,
            header,
            json,
        ),
        Commands::POST { url, body, header, json } => build_request_data_with_subcommand_params(
            METHODS::POST,
            url,
            body,
            header,
            json,
        ),
        Commands::PATCH { url, body, header, json } => build_request_data_with_subcommand_params(
            METHODS::PATCH,
            url,
            body,
            header,
            json,
        ),
        Commands::PUT { url, body, header, json } => build_request_data_with_subcommand_params(
            METHODS::PUT,
            url,
            body,
            header,
            json,
        ),
        Commands::DELETE { url, body, header, json } => build_request_data_with_subcommand_params(
            METHODS::DELETE,
            url,
            body,
            header,
            json,
        ),
        Commands::HEAD { url, body, header, json } => build_request_data_with_subcommand_params(
            METHODS::HEAD,
            url,
            body,
            header,
            json,
        ),
        Commands::OPTIONS { url, body, header, json } => build_request_data_with_subcommand_params(
            METHODS::OPTIONS,
            url,
            body,
            header,
            json,
        ),
    };
    AppCommand::BasicRequest { req: request_to_do }
}

} // verus!
