# matrix_frontend

The logic of a Matrix chat client, verified with Verus: how stored events
become timeline messages, what a sync writes to the local database, how the
composer finds and ranks completions around the caret, how the log viewer
filters and highlights lines, and the texts, labels and orderings that the
interface shows.

## Layout

- `src/` — the verified library.
  - `message.rs`, `raw_event.rs`, `spans.rs`, `timeline.rs`: stored rows
    to timeline messages, the reading of their raw JSON, message bodies to
    rich-text spans, timeline diffs.
  - `storage/`: table rows, the writes of a sync, and the shaping of query
    results (room names, member profiles, space links, reactions).
  - `composer/`: the autocomplete menu, the caret and word analysis, the
    editor's emptiness and typed links, typing notices.
  - `display/`: numbers, dates, system lines, event rows, sidebar, calls,
    previews, profile settings, audio menus.
  - `logs.rs`, `gifs.rs`, `login.rs`, `search.rs`, `client.rs`,
    `attachments.rs`, `emoji_picker.rs`, `space_search.rs`, `sync_loop.rs`,
    `token.rs`: the other parts of the client.
  - `outside.rs`: the calls into other crates, each with the contract the
    library relies on.
- `tests/`: tests of the library on concrete values.
- `app/`: the SQLite database, the clock and the local time zone, random
  search ids, and sizes written in floating point.
