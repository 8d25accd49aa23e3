# codex_y

A verified library for two features of a terminal coding agent:

- **The bin** (recoverable deletion). Moving an agent to the bin archives it
  and its spawned children and records them in a bin entry that expires
  30 days later. Restoring unarchives the recorded threads, the requested one
  last. Expiry deletes a subtree only when it is unchanged since it was
  binned; a restored, reused, loaded or changed member cancels the expiry.
- **Inline images** for iTerm2. An image is cut into rows one cell high; each
  row becomes an OSC 1337 escape registered under a private-use marker
  character, and only registered markers resolve to escapes.

Layout:

- `src/` — the library, verified with Verus: `thread_id` (UUID text),
  `time`, `rpc` (error answers), `trash` (entries, restore order), `purge`
  (the expiry state machine), `bin_view` (restore picker and paging),
  `rich_media` (image cache, rows and markers), `image_ops` (calls into
  `image`, `base64` and std), `text` (decimal text).
- `app/` — the surrounding code: bin files and JSON records, the loops that
  drive the verified decisions, the process-wide image cache, environment
  variables and the TeX helper process.
- `tests/` — tests of the library.
