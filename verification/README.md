# bingo

The rules of a multiplayer baseball bingo game, written in Verus and proved
against their specifications.

A host opens a room for a team; every player who joins is dealt a 5x5 board of
(roster player, event type) pairs around a free centre square, shuffled by a
generator seeded from the room code and the player id. The host calls events;
matching squares are marked on every board, and the first players to complete
a row, a column or a diagonal win.

## Layout

- `src/` — the verified library.
  - `rng.rs`: FNV-1a seeding, the xorshift64 generator, the Fisher-Yates
    shuffle, and the proof that a shuffle is a permutation.
  - `board.rs`: dealing a board, with the proofs that dealing is
    deterministic and only deals pairs of the room.
  - `bingo.rs`: the twelve lines and the search for a completed one.
  - `models.rs`: rooms, players, boards, events and winners.
  - `events.rs`: validating and applying a called event.
  - `rooms.rs`: creating, describing and joining rooms.
  - `consistency.rs`: the room invariant and the proofs that creating a room,
    calling an event and joining keep it.
  - `state.rs`: what a polling player is shown.
  - `codes.rs`, `util.rs`: room codes, tokens and ids from the system's random
    source, secret comparison, bearer tokens, case folding.
  - `decimal.rs`, `kv.rs`, `roster.rs`, `cors.rs`: numbers in text, store keys
    and lifetimes, roster requests, cross-origin headers.
- `tests/` — tests of the library on concrete values.
- `app/` — the Cloudflare Worker around the library: routing, the key-value
  store, the roster service and JSON.
