pub mod json;
pub mod methods;
pub mod text;
pub mod url;
pub mod request;
pub mod request_items;
pub mod cli_input;
pub mod validators;
pub mod commands;
pub mod input_parsers;
pub mod input_to_commands;
pub mod clap_parser;
pub mod style;
pub mod executors;
pub mod output;
pub mod cli_commands;
pub mod cli_parser;
pub mod listing;
pub mod notices;
pub mod reports;
pub mod merge;
pub mod json_text;
