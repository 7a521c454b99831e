# battle

The rules of a turn-based battle, written in Rust and proved with Verus: what
effects do to fighters, which conditions fire which behaviours, how rounds are
recorded and played again, and what the mechanics that span several skills decide.

## Layout

- `src/model.rs` holds the data of a battle: fighters, teams, effects, steps. Each
  type that owns memory has a view, and contracts speak of views.
- `src/text.rs`, `src/config.rs` read the small grammar of the game tables.
- `src/fight_step` builds effects and steps; `src/event.rs` turns events into them.
- `src/effect` is about conditions, slots and behaviours.
- `src/manager` is the state that a battle keeps: trackers of fighters, waves, cloth
  skills, passives, rules, playing and replaying.
- `src/mechanics` is about channels, injuries, magic circles, poison that settles and
  the shadow cloak.
- `src/operation` reads the operations of the player and the casts of the enemies.
- `src/chance.rs` is the only place that calls the `rand` crate. Its contracts are
  believed, not proved; each says what it claims.
- `app` drives the library with the services of a game server.
- `tests` runs the library on concrete values.

## Conventions

A function that needs something done outside the library says what is to be done and
takes the result: it returns a plan or a command, and a second function takes what
came of it. A `requires` clause speaks of numbers that stay in their range and of
arguments that belong together: lists of one length, a position within its list.
