# copilot_money_cli

A command-line client for the Copilot Money service (`copilot`), whose core
is a library verified with Verus.

## Layout

- `src/` — the verified library. Its functions carry `requires` /
  `ensures` contracts over mathematical models (`Seq`, `Set`, `Option` of
  views) and are proved by Verus, except four small trusted wrappers whose
  contracts are taken on trust: `text::push_char` (`String::push`),
  `text::to_lowercase` (`str::to_lowercase`), `dates::utc_timestamp`
  (chrono's date parsing and timestamp) and `render::str_display_width`
  (`unicode-width`). Each states in its doc comment what it claims.
  - `text` — character-level string operations (trimming, splitting,
    case-insensitive matching, UTF-8 byte lengths, decimal numbers).
  - `dates` — normalization of `YYYY-MM-DD` / `MM-DD-YYYY` dates, the
    proleptic Gregorian calendar, and epoch seconds (through chrono).
  - `client` — the service's data model, the GraphQL endpoint, the decision
    after each response (done, refresh the token and retry once, or fail),
    and which transactions query to send.
  - `transactions` — server-side sort and filter arguments, and the
    client-side filter of transactions.
  - `paging` — the state machines that collect pages of a listing and that
    find transactions by id by scanning pages.
  - `categories` — flattening the category forest, names by id, and resolving
    a category given by name.
  - `edits` — the first step of a write (a dry run stops before any
    request; otherwise `--yes` or an interactive confirmation),
    identifiers a mutation needs, tag updates and notes.
  - `render`, `table`, `reports`, `auth` — CSV escaping, shortened ids,
    money spelling, table cells and colors, key/value reports, and the
    arguments of the browser helper.
  - `config` — paths, the token file's contents, and the helper command.
  - `laws` — properties that relate several operations (token file round
    trip, filter idempotence, date spellings, end of day, CSV read-back).
- `tests/` — tests of the library on concrete values.
- `app/` — the program: argument parsing (clap), HTTP requests (reqwest),
  JSON (serde), files, processes, prompts and terminal output. It hands the
  library plain values and acts on what the library decides.
