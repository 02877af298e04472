# snake

A snake game: a verified game engine and two front-ends around it.

- `src/` is the library, verified with Verus.
  - `config.rs`: difficulty presets, custom settings clamped to the
    supported limits, and the tick duration.
  - `game.rs`: the game state and its rules (movement, walls, self-collision,
    growth, score, food placement on a random free cell), with the invariant
    that every step keeps.
  - `paint.rs`: which cells the canvas paints for the board, and what the
    terminal writes for the board and after a step, in order.
  - `play.rs`: the terminal game loop's decisions (quit, turn, step, wait for
    `q` once the game is over).
  - `menu.rs`: the terminal front-end's mode menu, custom-settings menu and
    presets, as state machines over key presses.
- `app/` is the terminal program (crossterm) and, for `wasm32`, the browser
  front-end (wasm-bindgen, web-sys).
- `tests/` exercises the library.
