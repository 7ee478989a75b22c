# bevy_starfighter

The rules of a two-dimensional space shooter, written in Verus and proved
against their specifications, together with the Bevy application that runs
the game.

## Layout

- `src/` — the verified library.
  - `settings.rs`: game settings, training configuration, collision-detection mode.
  - `act.rs`: the action space, action frames, the keyboard command.
  - `countdown.rs`: frame counters that count down, with their timing lemmas.
  - `components.rs`: the game state of fighters, bullets and asteroids.
  - `stats.rs`: round counters, the round clock and the best score.
  - `players.rs`: players' fighters, respawn queues, removal of destroyed fighters, round reset.
  - `agents.rs`: who steers which player, which agents act, where the opponent policy goes.
  - `collision.rs`: collision rules, hits on fighters and asteroids.
  - `random.rs`: the spawn edge drawn with `rand`.
  - `laws.rs`: properties of the game that span several operations.
- `tests/` — tests on concrete values.
- `app/` — the Bevy application: rendering, physics, agents and the native launcher.
