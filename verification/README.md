# Monty Hall simulator, verified core

The library (`src/`) holds the game and is verified with Verus:

- `game_logic`: the doors, their random layout, the host's reveal, the final
  resolution, the batch simulation, and the proved rules of the game (one car,
  the host always has a goat to show, switching wins exactly when the first
  pick was wrong).
- `session`: the interactive game's state machine, the win statistics, the
  chunked turbo run and the bounded history.
- `view`: the decisions behind the display (door faces, controls, units).
- `random`: the calls into `rand`: a standard generator seeded by the
  operating system, and draws from it.

`app/` is the Dioxus front end: components, timers and the animation loops.
