# snake

A terminal snake game. The library (`src/`) holds the game itself, verified
with Verus: the snake's moves, turns and growth (`snake`), the playing field
with its apple, score and difficulty (`grid`), and the reaction to key presses,
the time step of each frame, the frame timing, the end screen and the
difficulty argument (`game`). Random apple placement
goes through `rand` (`random`). The program in `app/` reads the keyboard,
draws with `termion` and runs the loop.
