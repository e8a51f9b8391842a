# orchid

The backend of Orchid, a personal AI chat service: an event-sourced
conversation aggregate with its read models, the in-memory application state
(users, sessions, conversations), titles and replies built around the model
provider, the session cookie, the configuration, and the chat socket's token
stream. Each of these is a Verus-verified library under `src/`; `app/` is the
HTTP and WebSocket service around it.

## Layout

- `src/text.rs` – character-level string operations (trim, split, words,
  truncation, prefixes, lexicographic order) stated over `Seq<char>`.
- `src/table.rs` – a string-keyed table viewed as a `Map`, with distinct keys.
- `src/domain/` – the conversation aggregate (`decide`, `applied`, `replay`)
  and its history, list and memory views, each defined as a fold over events.
- `src/state.rs` – the in-memory state (`MemoryState`) and the checks, titles
  and replies that the database-backed paths share with it.
- `src/ai/`, `src/api/`, `src/auth/`, `src/ws/`, `src/config.rs` – the model
  registry and wire format, HTTP bodies, session cookie, socket frames and
  configuration defaults.
- `src/services.rs` – the trusted edge: random identifiers, the clock and
  password hashing.
- `app/` – axum routes, Postgres and Redis, the event-sourcing framework, the
  HTTP model client, and serde copies of the library's types.

Laws that relate several operations are public proof functions named `law_*`.
