# treq

The command line layer of TReq, a terminal HTTP client, as a verified
library: how the command line becomes request data and commands, and how
each command's output is routed and laid out.

- `src/` — the library, verified with Verus.
  - `cli_input`, `validators`, `input_parsers`, `input_to_commands`:
    from the parsed arguments to the list of commands to run, with the laws
    that tie them together (saving comes before sending and stores what is
    sent, the localhost alias, query items against a query in the URL).
  - `request`, `request_items`, `url`, `json`, `methods`, `text`: request
    data, the request item syntax (`:`, `=`, `:=`, `==`), URLs and JSON
    bodies.
  - `clap_parser`: the parser of a URL or a method subcommand with
    `--body`, `--header` and `--json`.
  - `cli_parser`, `cli_commands`: the parser of subcommands and request
    items into the commands of `cli_commands`, and their executors.
  - `json_text`: the compact JSON text of body fields given as items, in
    the order of their keys.
  - `merge`: request data given on top of a saved request.
  - `commands`, `executors`, `output`, `reports`, `notices`, `listing`,
    `style`: the executors of the commands, where their output goes, and
    what it says.
- `tests/` — tests of the library.
- `app/` — the terminal around it: the `clap` definition, writers on the
  real streams, and the executors that talk to storage and the web client
  through the `Backend` interface, which this crate declares but does not
  implement.
