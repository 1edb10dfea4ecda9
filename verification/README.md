# qq_lite

The core of a light QQ client that talks to a NapCat (OneBot 11) server,
written in Verus: the behaviour of each library function is stated in its
contract and proved.

- `src/` — the verified library.
  - `id`, `config`, `conversation`, `message`, `event`, `command`, `error`,
    `view`: the domain model.
  - `state`: the client state and how each domain event changes it, with the
    laws it keeps (idempotent events, read-after-write, ordered timelines).
  - `sort`: the stable insertion that orders timelines and the conversation
    list, and its laws.
  - `render`: plain-text and HTML rendering of rich text.
  - `napcat`: protocol data, the mapping of events and replies, and the
    gateway's decisions.
  - `store`: the row layout of the message store, and its round trips.
  - `service`, `ports`, `tui`: local command handling, the event sink, and
    the terminal client's key handling and lines.
  - `text`: decimal text, parsing, comparison and trimming of text.
- `app/` — the terminal program: the async client core, the WebSocket
  gateway, the SQLite store, the desktop commands and the Ratatui screen.
- `tests/` — tests of the library.
