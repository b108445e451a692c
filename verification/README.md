# VoidQuest

A small multiplayer RPG: a TCP server that runs a shared world, and a client
state machine that a graphical front end drives, with an offline
single-player mode. The game logic is written in Verus and proved against its
contracts; the sockets, threads, timers and configuration files are ordinary
Rust around it.

## Layout

- `src/` — the verified library
  - `world/` — positions, tiles, maps, stats, combat reports
  - `entity/` — classes, monsters, items, equipment, players
  - `config/` — the game configuration, its built-in data and the interface strings
  - `mapgen/` — the world, the large single-player map and the zone maps
  - `rules.rs` — damage, level-up and the ranges the numbers keep
  - `actions.rs` — inventory actions, monster hits and monster AI, shared by both games
  - `engine/` — the single-player game: actions, ticks, loot, setup
  - `server/` — the server's world: sessions, requests, combat, ticks
  - `client/` — the client's screens, key handling, server messages and display
  - `rng.rs`, `text.rs` — the calls into `rand` and into std's string functions
- `app/` — the server program (tokio), the client's connection, the JSON and
  TOML files, and the serde shapes of the protocol
- `tests/` — tests of the library on concrete values

## Controls while playing

| Key | Action |
|-----|--------|
| `W A S D` / arrows | Move (in the first-person camera: forward, back, strafe; left and right arrows turn) |
| `Q E Z C` | Move diagonally |
| `F` | Attack the nearest adjacent monster |
| `U` / `G` / `X` | Use / equip / drop the selected inventory item |
| `P` | Pick up the item on the ground |
| `J` / `K` | Move the inventory selection down / up |
| `Enter` | Open the chat line |
| `I` / `V` | Open the inventory panel / toggle the equipment panel |
| `T` | Travel to the next zone (single player) |
| `F5` | Cycle the camera |
| `Esc` | Close the equipment panel, else quit |
