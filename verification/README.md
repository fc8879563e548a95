# reckon

Reckon gives a codebase a memory: for each module it keeps a `MEMOIR.md`
that records why the code looks the way it does (the incidents, pull
requests and issues behind it) and a list of tripwires, code regions that
an incident taught the team not to remove. `reckon check` compares a diff
with those tripwires and warns before a guarded region is deleted.

## Layout

- `src/` is the library, written in Verus. Every function carries a
  contract and is proved against it, except six small trusted wrappers
  whose contracts are taken on trust: `text::push_char` (`String::push`),
  `text::lowercase` (`str::to_lowercase`), `text::uppercase`
  (`char::to_uppercase`), `config::debug_string` and `config::debug_path`
  (`{:?}` of a string and of a `Path`), and `refs::capture_group1`
  (`regex::Regex::new` and `captures_iter`). The modules:
  - `diff` parses unified diffs into files, hunks and removed line ranges;
  - `tripwire` decides which tripwires a diff trips;
  - `memoir` renders and parses memoir documents and derives tripwires
    from postmortems;
  - `postmortem`, `refs`, `target`, `config` parse the project's inputs;
  - `indexer` merges commit logs and links pull requests and issues;
  - `mcp` holds the routing and the replies of the MCP server;
  - `evidence`, `git`, `writer`, `seed` hold the records, labels and
    fixtures that the program stores, prints and seeds;
  - `cli` renders every screen of the command-line tool;
  - `text`, `number`, `ordered`, `path` hold the shared primitives.
- `app/` is the program around the library: argument parsing, git,
  SQLite, the file system, JSON and YAML, and the stdio loop of the MCP
  server.
- `tests/` runs the library on concrete inputs.
