//! What each grid cell shows and the textual picture of the whole board:
//! one glyph per cell, one line per row, and a trailing score line.

use vstd::prelude::*;
use crate::board::{cell_index, coord_in_grid};
use crate::text::decimal;
use crate::SIZE;

verus! {

/// What one grid cell shows. Derived from the snake and the food on
/// every refresh; never authoritative.
#[derive(Copy, Clone, PartialEq, Eq, Structural, Debug)]
pub enum Block {
    SnakeBody,
    SnakeHead,
    Empty,
    Food,
}

/// The cell a coordinate shows: the snake's head at its last coordinate,
/// its body on the rest, the food on its cell, all else empty.
pub open spec fn cell_spec(snake: Seq<(usize, usize)>, food: (usize, usize), c: (usize, usize)) -> Block {
    if snake.len() > 0 && c == snake.last() {
        Block::SnakeHead
    } else if snake.contains(c) {
        Block::SnakeBody
    } else if c == food {
        Block::Food
    } else {
        Block::Empty
    }
}

/// The grid holds one cell per coordinate, each showing what the snake
/// and the food dictate.
pub open spec fn grid_matches(grid: Seq<Block>, snake: Seq<(usize, usize)>, food: (usize, usize)) -> bool {
    &&& grid.len() == SIZE * SIZE
    &&& forall|c: (usize, usize)|
        coord_in_grid(c) ==> #[trigger] grid[cell_index(c)] == cell_spec(snake, food, c)
}

/// The glyph of one cell.
pub open spec fn block_char(b: Block) -> char {
    match b {
        Block::SnakeHead => '🟢',
        Block::SnakeBody => '🟩',
        Block::Empty => '⬛',
        Block::Food => '🍎',
    }
}

/// The text of one grid row: a glyph per cell, newline-terminated.
pub open spec fn row_text(grid: Seq<Block>, y: int) -> Seq<char> {
    Seq::new(SIZE as nat, |x: int| block_char(grid[y * SIZE + x])).push('\n')
}

/// The text of the first `k` grid rows.
pub open spec fn rows_text(grid: Seq<Block>, k: int) -> Seq<char>
    decreases k,
{
    if k <= 0 {
        Seq::empty()
    } else {
        rows_text(grid, k - 1) + row_text(grid, k - 1)
    }
}

/// The full picture: every row, a blank line, and the score line.
pub open spec fn render_text(grid: Seq<Block>, score: u8) -> Seq<char> {
    rows_text(grid, SIZE as int) + seq!['\n'] + "Score: "@ + decimal(score as int)
}

/// The one-glyph string of a cell.
pub fn block_str(b: Block) -> (r: &'static str)
    ensures
        r@ == seq![block_char(b)],
{
    proof {
        reveal_strlit("🟢");
        reveal_strlit("🟩");
        reveal_strlit("⬛");
        reveal_strlit("🍎");
    }
    match b {
        Block::SnakeHead => "🟢",
        Block::SnakeBody => "🟩",
        Block::Empty => "⬛",
        Block::Food => "🍎",
    }
}

} // verus!
