use crate::grid::{lowered, raised, stepped, steered, GameState, Grid, GridView, Key};
use crate::snake::SnakeView;
use vstd::prelude::*;

verus! {

/// Name for what `clap_num::number_range` returns when it reads `s` as a
/// `u8` between `min` and `max`, the error message taken as its characters.
pub uninterp spec fn number_range_result(s: Seq<char>, min: u8, max: u8) -> Result<u8, Seq<char>>;

/// Calls `clap_num::number_range` for `u8`. By its source it parses `s` with
/// `str::parse` and keeps the number only when it lies in `min..=max`, else
/// returns a message; its result is named by [`number_range_result`]. It
/// panics (in debug builds) when `min > max`, which `requires` rules out.
#[verifier::external_body]
fn number_range_u8(s: &str, min: u8, max: u8) -> (r: Result<u8, String>)
    requires
        min <= max,
    ensures
        r is Ok ==> number_range_result(s@, min, max) == Ok::<u8, Seq<char>>(r->Ok_0),
        r is Err ==> number_range_result(s@, min, max) == Err::<u8, Seq<char>>(r->Err_0@),
        r is Ok ==> min <= r->Ok_0 <= max,
{
    clap_num::number_range(s, min, max)
}

/// Reads a difficulty from the command line: a number from 1 to 20.
pub fn between_1_and_20(s: &str) -> (r: Result<u8, String>)
    ensures
        r matches Ok(v) ==> number_range_result(s@, 1, 20) == Ok::<u8, Seq<char>>(v),
        r matches Err(e) ==> number_range_result(s@, 1, 20) == Err::<u8, Seq<char>>(e@),
        r matches Ok(v) ==> 1 <= v <= 20,
{
    number_range_u8(s, 1, 20)
}

/// Whether a terminal of this size is too small to play in.
pub fn terminal_too_small(width: u16, height: u16) -> (r: bool)
    ensures
        r == (width < 32 || height < 6),
{
    width < 32 || height < 6
}

/// Milliseconds between two frames at a difficulty.
pub open spec fn spec_sleep_time(difficulty: u8) -> int {
    200 - (difficulty - 1) * 10
}

/// Milliseconds to wait between two frames: 200 at difficulty 1, ten less
/// for each step up.
pub fn sleep_time(difficulty: u8) -> (r: u64)
    requires
        1 <= difficulty <= 21,
    ensures
        r == spec_sleep_time(difficulty),
{
    200 - ((difficulty - 1) * 10) as u64
}

/// Difficulty 1 waits 200 ms, and each step up takes exactly 10 ms off.
pub proof fn lemma_sleep_steps_by_ten(d: u8)
    ensures
        spec_sleep_time(1) == 200,
        1 <= d < 21 ==> spec_sleep_time((d + 1) as u8) == spec_sleep_time(d) - 10,
{
}

/// A harder game runs faster.
pub proof fn lemma_harder_is_faster(d1: u8, d2: u8)
    requires
        1 <= d1 < d2 <= 21,
    ensures
        spec_sleep_time(d2) < spec_sleep_time(d1),
        0 <= spec_sleep_time(d2),
{
}

/// The state after pressing the pause key.
pub open spec fn toggled(state: GameState) -> GameState {
    if state == GameState::Pause {
        GameState::Running
    } else {
        GameState::Pause
    }
}

/// Pressing pause twice resumes the game as it was.
pub proof fn lemma_pause_twice(state: GameState)
    requires
        state == GameState::Running || state == GameState::Pause,
    ensures
        toggled(toggled(state)) == state,
{
}

/// What a key press does to a game: Esc ends it, space pauses or resumes it,
/// page down and page up make it easier or harder, and any other key turns
/// the snake (or does nothing).
pub fn apply_key(state: GameState, grid: &mut Grid, key: Key) -> (r: GameState)
    ensures
        key == Key::Esc ==> r == GameState::GameOver && final(grid)@ == old(grid)@,
        key == Key::Space ==> r == toggled(state) && final(grid)@ == old(grid)@,
        key == Key::PageDown ==> r == state && final(grid)@ == (GridView {
            difficulty: lowered(old(grid)@.difficulty),
            ..old(grid)@
        }),
        key == Key::PageUp ==> r == state && final(grid)@ == (GridView {
            difficulty: raised(old(grid)@.difficulty),
            ..old(grid)@
        }),
        key != Key::Esc && key != Key::Space && key != Key::PageDown && key != Key::PageUp ==> r
            == state && final(grid)@ == (GridView {
            snake: SnakeView {
                direction: steered(old(grid)@.snake.direction, key),
                ..old(grid)@.snake
            },
            ..old(grid)@
        }),
        old(grid)@.wf() ==> final(grid)@.wf(),
{
    match key {
        Key::Esc => GameState::GameOver,
        Key::Space => {
            if state == GameState::Pause {
                GameState::Running
            } else {
                GameState::Pause
            }
        },
        Key::PageDown => {
            grid.difficulty_down();
            state
        },
        Key::PageUp => {
            grid.difficulty_up();
            state
        },
        _ => {
            grid.control(key);
            state
        },
    }
}

/// How a finished game ends on screen.
#[derive(Clone, Copy, Debug, PartialEq, Eq, Structural)]
pub enum Ending {
    Lost,
    Won,
}

/// Whether the game goes on (running or paused).
pub fn is_playing(state: GameState) -> (r: bool)
    ensures
        r == (state == GameState::Running || state == GameState::Pause),
{
    state == GameState::Running || state == GameState::Pause
}

/// The game's time step, after the key of the frame was applied: a running
/// game moves the snake one step; a paused or finished one stays as it is.
/// Returns the new state and whether the snake moved (so its old tail end
/// must be cleared from the screen).
pub fn tick(state: GameState, grid: &mut Grid) -> (r: (GameState, bool))
    requires
        old(grid)@.wf(),
        state == GameState::Running ==> old(grid)@.step_allowed(),
    ensures
        state == GameState::Running ==> r.1 && stepped(old(grid)@, final(grid)@, r.0),
        state != GameState::Running ==> r == (state, false) && final(grid)@ == old(grid)@,
        final(grid)@.wf(),
{
    if state == GameState::Running {
        (grid.update(), true)
    } else {
        (state, false)
    }
}

/// Which end screen a state shows once the game stops: none while it goes
/// on.
pub fn ending(state: GameState) -> (r: Option<Ending>)
    ensures
        state == GameState::GameOver ==> r == Some(Ending::Lost),
        state == GameState::Win ==> r == Some(Ending::Won),
        state == GameState::Running || state == GameState::Pause ==> r is None,
{
    match state {
        GameState::GameOver => Some(Ending::Lost),
        GameState::Win => Some(Ending::Won),
        _ => None,
    }
}

} // verus!
