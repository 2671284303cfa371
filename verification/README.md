# famiibo

A small web service that lists amiibo dumps by game and writes a chosen dump
to an NFC tag with the `pimiibo` program, reporting the progress of the write
as server-sent events.

- `src/` is the verified library: how games, categories and characters are
  named and linked (`names`, `catalog`), unix path handling (`paths`),
  percent-encoding (`urlcode`), decimal numerals (`numbers`), the request
  settings (`requests`), the messages of the event stream (`messages`) and the
  state machine that follows a write from start to exit (`status`).
- `app/` is the service itself: routes, templates, directory reading and the
  child process, driving the library's functions.
- `tests/` runs the library on concrete cases.
