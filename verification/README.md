# tetris

A terminal Tetris whose game logic is a Verus-verified library.

- `src/piece.rs`: the seven tetrominoes, their spawn shapes, clockwise rotation under
  the Super Rotation System (I in a 4x4 box, O fixed, the others in a 3x3 box) and the
  squares a piece covers.
- `src/count.rs`: finite sums and counts, used to count squares.
- `src/bag.rs`: the 7-bag generator (rand's shuffle behind a trusted wrapper); every
  block of seven draws holds each kind once.
- `src/board.rs`: the playfield model: collision, stamping a piece, clearing full
  rows, and the landing row of a straight fall.
- `src/game.rs`: the game state machine: gravity, inputs, SRS wall kicks, hold, pause,
  locking, scoring and levels, each stated exactly over `GameState`.
- `src/game_loop.rs`: the decisions of the main loop: quit, gravity timer (restarted by
  a hard drop), redraw every 16 ms, and the final screen.
- `src/keys.rs`: key presses to game inputs, and to the language on the start screen.
- `src/layout.rs`: where the playfield sits on the terminal, and a proof that
  everything drawn fits every accepted terminal size (the controls legend is left out
  where it would not fit).
- `src/properties.rs`: laws that span several operations.
- `app/`: the terminal program: crossterm input and drawing, the clock, the gravity
  interval (floating point), and carrying out what the loop decisions say.

Scoring follows the table: soft drop 1 × level per row, hard drop 2 × level per row,
100/300/500/800 × level for one to four lines, plus 50 × (combo − 1) × level. The
counters are 32-bit and wrap around, as in a release build.
