# akashi

A library for building collectible card and gacha games, with its
behaviour stated in `requires` / `ensures` contracts and proved by Verus.

## Layout

- `src/` is the verified library:
  - `snowflake` — 64-bit unique IDs and their generator. The generator is
    a state machine: `generate_at` takes the current time and either hands
    out an ID or asks the caller to wait.
  - `components` — resources with optional lower and upper caps, card
    text, card types attached to cards, and inventories of card IDs.
  - `store`, `local_storage`, `ecs`, `paging` — storage backends for
    entities and components, handles, an in-memory backend, and sorted,
    paginated listings of IDs.
  - `game` — the example game: its entity manager (players and cards as
    entities, inventories and resource A counts as components attached to
    players, names and types attached to cards), its models, and its
    "resource A" transactions.
  - `server` — the game server: unsigned resource counters, cards and
    inventories, player resource transactions, the inventory operations
    and the errors of the HTTP API.
- `tests/` holds the tests, which call the library as ordinary Rust.
- `app/` is the HTTP server around the library (actix-web): routing, JSON,
  the clock, locking of the shared state, and turning errors into
  responses.

Laws of the library are public proof functions whose names start with
`law_`.
