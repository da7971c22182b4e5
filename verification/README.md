# christina

A commit assistant for staged Git changes, built around a library whose
behaviour is specified in `requires`/`ensures` contracts and proved with
Verus.

## Layout

- `src/` — the verified library.
  - `text` — the character model of strings (lines, trimming, searching,
    UTF-8 byte lengths) shared by the other modules.
  - `cli` — the command-line grammar: a parser over the argument list,
    specified by a grammar over character sequences.
  - `diff_parsing`, `binary_files`, `chunking`, `tokenizer`,
    `diff_processor` — reading unified diffs (file headers, per-file
    sections, deletion-only diffs, binary files), counting tokens with the
    `o200k_base` encoding, and splitting a diff into chunks that fit a model's
    token budget (whole files, then hunks, then lines, then pieces of a
    line), with diffs over the size limit cut and announced, binary files
    announced rather than sent, and deletion-only diffs shrunk first.
  - `generation`, `map_reduce`, `orchestrator`, `themes` — the decisions
    around the model calls: API key and budget checks, merging small chunks
    into one prompt, the path a diff takes, tallying the summaries of the map
    phase, batching summaries, extracting JSON from answers, cleaning the
    generated message, and merging themes.
  - `retry`, `azure`, `azure_endpoint`, `api_key`, `secrets` — backoff
    policy, classification of provider responses, Azure endpoint settings and
    secret handling.
  - `edit_history`, `persistence`, `history`, `git_files`, `commit_flow`,
    `config`, `config_cmd`, `settings`, `shutdown` — editing history with undo/redo, crash-recovery
    state, style history, staged-file assembly and the steps of the commit
    and configuration commands, the layering of defaults, file, profile
    and environment into the runtime configuration (held to the models' hard
    token limits), what `config get` and `config list` show, and how
    `config set` reads and stores a value, in the active profile too.
- `tests/` — tests run against the compiled library.
- `app/` — the program around the library: arguments, the repository through
  `git2`, files in the cache directory, and the terminal.

The laws the library keeps (undo and redo undo each other, line splitting
loses no text and stays within the token limit, themes are ranked by file
count, and others) are public proof functions named `law_*`.
