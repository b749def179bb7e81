//! The game engine: one snake on a fixed square grid, moved one cell per
//! tick by an externally chosen heading. A tick either advances the snake,
//! grows it onto the food, or — on a wall hit or a self hit — discards the
//! episode and starts a fresh one. The whole state serializes to a compact
//! text form and back.

use vstd::prelude::*;
use vstd::string::StringExecFns;
use crate::board::{
    cell_index, coord_in_grid, coords_in_grid, lemma_cell_index_injective,
    lemma_distinct_coords_bounded, lemma_index_set_card, lemma_index_set_contains, index_set,
};
use crate::codec::{
    backup_text, backup_valid, lemma_backup_round_trip, pair_text, parse_backup, parsed_dir,
    parsed_food, parsed_snake, snake_group_ok, snake_text,
};
use crate::direction::{dir_char, opposite, Direction};
use crate::random::RandomSource;
use crate::render::{block_char, block_str, cell_spec, grid_matches, render_text, row_text, rows_text, Block};
use crate::text::{chars_of, decimal, digit_str, u8_to_string};
use crate::SIZE;
use vstd::set_lib::set_int_range;

verus! {

/// What a tick or an import reports to the caller. Wall and self hits are
/// not errors: they reset the episode and the call still succeeds.
#[derive(Copy, Clone, PartialEq, Eq, Structural, Debug)]
pub enum GameError {
    /// The requested heading is not among the accepted ones.
    InvalidDirection,
    /// The backup text does not encode a well-formed state.
    MalformedBackup,
}

/// The mathematical value of a game state.
#[verifier::ext_equal]
pub struct GameView {
    /// Body coordinates, tail first; the last one is the head.
    pub snake: Seq<(usize, usize)>,
    /// Where the food lies.
    pub food: (usize, usize),
    /// Food eaten in the running episode.
    pub score: u8,
    /// The highest score any episode has reached.
    pub high_score: u8,
    /// The committed heading.
    pub direction: Direction,
    /// The derived picture of the board, row-major.
    pub grid: Seq<Block>,
}

impl GameView {
    /// Every reachable state keeps this shape: at least one snake
    /// coordinate, all on the grid and pairwise distinct; the food on the
    /// grid but on none of them; the score one less than the snake's
    /// length; and the grid derived from snake and food.
    pub open spec fn wf(self) -> bool {
        &&& self.snake.len() >= 1
        &&& coords_in_grid(self.snake)
        &&& self.snake.no_duplicates()
        &&& coord_in_grid(self.food)
        &&& !self.snake.contains(self.food)
        &&& self.score as int == self.snake.len() - 1
        &&& grid_matches(self.grid, self.snake, self.food)
    }

    /// The snake's head.
    pub open spec fn head(self) -> (usize, usize) {
        self.snake.last()
    }

    /// Whether a heading is accepted: on a length-one snake every heading
    /// is, afterwards all but the direct reversal of the committed one.
    pub open spec fn move_allowed(self, d: Direction) -> bool {
        self.snake.len() == 1 || d != opposite(self.direction)
    }

    /// The cell the head would move to, which may lie off the grid.
    pub open spec fn target(self, d: Direction) -> (int, int) {
        match d {
            Direction::Up => (self.head().0 as int, self.head().1 - 1),
            Direction::Down => (self.head().0 as int, self.head().1 + 1),
            Direction::Left => (self.head().0 - 1, self.head().1 as int),
            Direction::Right => (self.head().0 + 1, self.head().1 as int),
        }
    }

    /// Whether the move would leave the grid.
    pub open spec fn hits_wall(self, d: Direction) -> bool {
        !(0 <= self.target(d).0 < SIZE && 0 <= self.target(d).1 < SIZE)
    }

    /// The cell the head moves to, when it stays on the grid.
    pub open spec fn target_coord(self, d: Direction) -> (usize, usize) {
        (self.target(d).0 as usize, self.target(d).1 as usize)
    }

    /// Whether the move reaches the food.
    pub open spec fn eats(self, d: Direction) -> bool {
        !self.hits_wall(d) && self.target_coord(d) == self.food
    }

    /// Whether the move runs the head into the body that remains after
    /// the tail slides forward.
    pub open spec fn hits_self(self, d: Direction) -> bool {
        &&& !self.hits_wall(d)
        &&& !self.eats(d)
        &&& self.snake.subrange(1, self.snake.len() as int).contains(self.target_coord(d))
    }
}

/// A fresh episode: a well-formed length-one snake, the score zeroed, the
/// high score and the committed heading carried over.
pub open spec fn reset_of(post: GameView, pre: GameView) -> bool {
    &&& post.wf()
    &&& post.snake.len() == 1
    &&& post.score == 0
    &&& post.high_score == pre.high_score
    &&& post.direction == pre.direction
}

/// Whether a choice tuple offers a direction.
pub open spec fn offers(r: (Direction, Direction, Direction, Option<Direction>), d: Direction) -> bool {
    r.0 == d || r.1 == d || r.2 == d || r.3 == Some(d)
}

/// The full game state.
pub struct Game {
    grid: Vec<Block>,
    snake: Vec<(usize, usize)>,
    food: (usize, usize),
    score: u8,
    high_score: u8,
    direction: Direction,
}

impl Default for Game {
    /// The same deterministic starting state as `Game::new`.
    fn default() -> (g: Game)
        ensures
            g@.wf(),
            g@.snake == seq![(0usize, 0usize)],
            g@.food == ((SIZE - 1) as usize, (SIZE - 1) as usize),
            g@.score == 0,
            g@.high_score == 0,
            g@.direction == Direction::Up,
    {
        Game::new()
    }
}

impl View for Game {
    type V = GameView;

    closed spec fn view(&self) -> GameView {
        GameView {
            snake: self.snake@,
            food: self.food,
            score: self.score,
            high_score: self.high_score,
            direction: self.direction,
            grid: self.grid@,
        }
    }
}

/// Whether a coordinate occurs in a vector of coordinates.
fn coords_contain(v: &Vec<(usize, usize)>, c: (usize, usize)) -> (r: bool)
    ensures
        r == v@.contains(c),
{
    let r = coords_contain_from(v, 0, c);
    assert(v@.subrange(0, v@.len() as int) =~= v@);
    r
}

/// Whether a coordinate occurs in a vector of coordinates at or after a
/// given position.
fn coords_contain_from(v: &Vec<(usize, usize)>, start: usize, c: (usize, usize)) -> (r: bool)
    requires
        start <= v@.len(),
    ensures
        r == v@.subrange(start as int, v@.len() as int).contains(c),
{
    let ghost sub = v@.subrange(start as int, v@.len() as int);
    let mut j: usize = start;
    while j < v.len()
        invariant
            start <= j <= v@.len(),
            sub == v@.subrange(start as int, v@.len() as int),
            forall|m: int| start <= m < j ==> v@[m] != c,
        decreases v@.len() - j,
    {
        let e = v[j];
        if e.0 == c.0 && e.1 == c.1 {
            assert(sub[j - start] == c);
            return true;
        }
        j += 1;
    }
    assert forall|m: int| 0 <= m < sub.len() implies sub[m] != c by {
        assert(sub[m] == v@[start + m]);
    }
    false
}

/// Whether any coordinate occurs twice in a vector of coordinates.
fn coords_have_duplicate(v: &Vec<(usize, usize)>) -> (r: bool)
    ensures
        r == !v@.no_duplicates(),
{
    let mut i: usize = 0;
    while i < v.len()
        invariant
            i <= v@.len(),
            forall|p: int, q: int| 0 <= p < q < v@.len() && p < i ==> v@[p] != v@[q],
        decreases v@.len() - i,
    {
        if coords_contain_from(v, i + 1, v[i]) {
            let ghost sub = v@.subrange(i + 1, v@.len() as int);
            let ghost m = choose|m: int| 0 <= m < sub.len() && sub[m] == v@[i as int];
            assert(v@[i + 1 + m] == v@[i as int]);
            return true;
        }
        proof {
            let sub = v@.subrange(i + 1, v@.len() as int);
            assert forall|q: int| i < q < v@.len() implies v@[q] != v@[i as int] by {
                assert(sub[q - i - 1] == v@[q]);
            }
        }
        i += 1;
    }
    false
}

impl Game {
    /// A deterministic starting state: a length-one snake in the corner
    /// nearest the origin, the food in the opposite corner, both scores
    /// zero, heading up. `setup` randomizes it.
    pub fn new() -> (g: Game)
        ensures
            g@.wf(),
            g@.snake == seq![(0usize, 0usize)],
            g@.food == ((SIZE - 1) as usize, (SIZE - 1) as usize),
            g@.score == 0,
            g@.high_score == 0,
            g@.direction == Direction::Up,
    {
        let mut snake: Vec<(usize, usize)> = Vec::new();
        snake.push((0, 0));
        let mut g = Game {
            grid: Vec::new(),
            snake,
            food: (SIZE - 1, SIZE - 1),
            score: 0,
            high_score: 0,
            direction: Direction::Up,
        };
        assert(g@.snake =~= seq![(0usize, 0usize)]);
        g.update_grid();
        g
    }

    /// Recomputes the whole grid from the snake and the food.
    fn update_grid(&mut self)
        requires
            old(self)@.snake.len() >= 1,
            coords_in_grid(old(self)@.snake),
            old(self)@.snake.no_duplicates(),
            coord_in_grid(old(self)@.food),
            !old(self)@.snake.contains(old(self)@.food),
        ensures
            final(self)@.snake == old(self)@.snake,
            final(self)@.food == old(self)@.food,
            final(self)@.score == old(self)@.score,
            final(self)@.high_score == old(self)@.high_score,
            final(self)@.direction == old(self)@.direction,
            grid_matches(final(self)@.grid, final(self)@.snake, final(self)@.food),
    {
        let ghost snake0 = self.snake@;
        let ghost food0 = self.food;
        let mut grid: Vec<Block> = Vec::new();
        let mut i: usize = 0;
        while i < SIZE * SIZE
            invariant
                i <= SIZE * SIZE,
                grid@.len() == i,
                forall|j: int| 0 <= j < i ==> grid@[j] == Block::Empty,
            decreases SIZE * SIZE - i,
        {
            grid.push(Block::Empty);
            i += 1;
        }
        let mut k: usize = 0;
        while k < self.snake.len()
            invariant
                k <= snake0.len(),
                self.snake@ == snake0,
                self.food == food0,
                coords_in_grid(snake0),
                grid@.len() == SIZE * SIZE,
                forall|c: (usize, usize)|
                    coord_in_grid(c) ==> #[trigger] grid@[cell_index(c)] == (
                    if snake0.subrange(0, k as int).contains(c) {
                        Block::SnakeBody
                    } else {
                        Block::Empty
                    }),
            decreases snake0.len() - k,
        {
            let c = self.snake[k];
            let idx = c.1 * SIZE + c.0;
            proof {
                assert(coord_in_grid(c));
                assert(idx == cell_index(c));
            }
            let ghost gpre = grid@;
            grid[idx] = Block::SnakeBody;
            proof {
                assert(snake0.subrange(0, k + 1 as int) =~= snake0.subrange(0, k as int).push(c));
                assert forall|c2: (usize, usize)| coord_in_grid(c2) implies #[trigger] grid@[cell_index(
                    c2,
                )] == (if snake0.subrange(0, k + 1 as int).contains(c2) {
                    Block::SnakeBody
                } else {
                    Block::Empty
                }) by {
                    if cell_index(c2) == cell_index(c) {
                        lemma_cell_index_injective(c2, c);
                        assert(snake0.subrange(0, k + 1 as int).last() == c);
                    } else {
                        assert(grid@[cell_index(c2)] == gpre[cell_index(c2)]);
                        assert(snake0.subrange(0, k + 1 as int).contains(c2)
                            == snake0.subrange(0, k as int).contains(c2)) by {
                            let s1 = snake0.subrange(0, k + 1 as int);
                            let s0 = snake0.subrange(0, k as int);
                            if s1.contains(c2) {
                                let m = choose|m: int| 0 <= m < s1.len() && s1[m] == c2;
                                if m < k {
                                    assert(s0[m] == c2);
                                } else {
                                    assert(s1[m] == c);
                                }
                            }
                            if s0.contains(c2) {
                                let m = choose|m: int| 0 <= m < s0.len() && s0[m] == c2;
                                assert(s1[m] == c2);
                            }
                        }
                    }
                }
            }
            k += 1;
        }
        proof {
            assert(snake0.subrange(0, snake0.len() as int) =~= snake0);
        }
        let f = self.food;
        let fidx = f.1 * SIZE + f.0;
        proof {
            assert(fidx == cell_index(f));
        }
        let ghost gbody = grid@;
        grid[fidx] = Block::Food;
        let h = self.snake[self.snake.len() - 1];
        let hidx = h.1 * SIZE + h.0;
        proof {
            assert(coord_in_grid(h));
            assert(hidx == cell_index(h));
        }
        let ghost gfood = grid@;
        grid[hidx] = Block::SnakeHead;
        proof {
            assert(snake0.contains(h)) by {
                assert(snake0[snake0.len() - 1] == h);
            }
            assert forall|c: (usize, usize)| coord_in_grid(c) implies #[trigger] grid@[cell_index(c)]
                == cell_spec(snake0, food0, c) by {
                if cell_index(c) == cell_index(h) {
                    lemma_cell_index_injective(c, h);
                } else {
                    assert(grid@[cell_index(c)] == gfood[cell_index(c)]);
                    if cell_index(c) == cell_index(f) {
                        lemma_cell_index_injective(c, f);
                    } else {
                        assert(gfood[cell_index(c)] == gbody[cell_index(c)]);
                    }
                }
            }
        }
        self.grid = grid;
    }

    /// Moves the food to a cell drawn uniformly over the free cells: the
    /// draw picks one of the cells the snake does not occupy.
    fn place_food(&mut self, rng: &mut RandomSource)
        requires
            old(self)@.snake.len() >= 1,
            old(self)@.snake.len() < SIZE * SIZE,
            coords_in_grid(old(self)@.snake),
            old(self)@.snake.no_duplicates(),
        ensures
            final(self)@.snake == old(self)@.snake,
            final(self)@.score == old(self)@.score,
            final(self)@.high_score == old(self)@.high_score,
            final(self)@.direction == old(self)@.direction,
            coord_in_grid(final(self)@.food),
            !final(self)@.snake.contains(final(self)@.food),
            grid_matches(final(self)@.grid, final(self)@.snake, final(self)@.food),
    {
        let ghost snake0 = self.snake@;
        proof {
            lemma_index_set_card(snake0);
        }
        let ghost occ = index_set(snake0);
        proof {
            assert(occ.intersect(set_int_range(0, 0)) =~= Set::<int>::empty());
        }
        let mut freev: Vec<(usize, usize)> = Vec::new();
        let mut i: usize = 0;
        while i < SIZE * SIZE
            invariant
                i <= SIZE * SIZE,
                self.snake@ == snake0,
                coords_in_grid(snake0),
                occ == index_set(snake0),
                occ.finite(),
                freev@.len() + occ.intersect(set_int_range(0, i as int)).len() == i,
                forall|j: int|
                    0 <= j < freev@.len() ==> coord_in_grid(#[trigger] freev@[j]) && !snake0.contains(
                        freev@[j]),
            decreases SIZE * SIZE - i,
        {
            let c = (i % SIZE, i / SIZE);
            proof {
                assert(coord_in_grid(c));
                assert(cell_index(c) == i);
            }
            let occupied = coords_contain(&self.snake, c);
            proof {
                lemma_index_set_contains(snake0, c);
                let a = occ.intersect(set_int_range(0, i as int));
                let b = occ.intersect(set_int_range(0, i + 1 as int));
                if occupied {
                    assert(b =~= a.insert(i as int));
                    assert(!a.contains(i as int));
                } else {
                    assert(b =~= a);
                }
            }
            if !occupied {
                freev.push(c);
            }
            i += 1;
        }
        proof {
            assert(occ.intersect(set_int_range(0, (SIZE * SIZE) as int)) =~= occ);
            assert(freev@.len() + snake0.len() == SIZE * SIZE);
        }
        let k = rng.below(freev.len());
        self.food = freev[k];
        self.update_grid();
    }

    /// Begins a fresh episode: a length-one snake at a drawn coordinate,
    /// the score zeroed, fresh food placed, the grid refreshed. The high
    /// score and the committed heading carry over.
    pub fn setup(&mut self, rng: &mut RandomSource)
        ensures
            reset_of(final(self)@, old(self)@),
    {
        let x = rng.below(SIZE);
        let y = rng.below(SIZE);
        let mut snake: Vec<(usize, usize)> = Vec::new();
        snake.push((x, y));
        self.snake = snake;
        self.score = 0;
        assert(self.snake@ =~= seq![(x, y)]);
        self.place_food(rng);
    }

    /// One tick. A heading outside the accepted set is reported as
    /// `InvalidDirection` and changes nothing. An accepted heading is
    /// committed: a move off the grid or into the remaining body discards
    /// the episode and begins a fresh one; a move onto the food grows the
    /// snake, counts the score, and relocates the food (a board the grown
    /// snake fills completely also begins a fresh episode); a move onto
    /// any other cell slides the snake forward, dropping its tail.
    pub fn move_snake(&mut self, direction: Direction, rng: &mut RandomSource) -> (r: Result<
        (),
        GameError,
    >)
        requires
            old(self)@.wf(),
        ensures
            final(self)@.wf(),
            r is Err <==> !old(self)@.move_allowed(direction),
            r is Err ==> *final(self) == *old(self) && r == Err::<(), GameError>(
                GameError::InvalidDirection,
            ),
            r is Ok ==> ({
                let pre = old(self)@;
                let post = final(self)@;
                let nh = pre.target_coord(direction);
                if pre.hits_wall(direction) || pre.hits_self(direction) {
                    reset_of(post, pre)
                } else if pre.eats(direction) {
                    &&& post.high_score as int == (if pre.score + 1 > pre.high_score {
                        pre.score + 1
                    } else {
                        pre.high_score as int
                    })
                    &&& post.direction == direction
                    &&& if pre.snake.len() + 1 == SIZE * SIZE {
                        &&& post.snake.len() == 1
                        &&& post.score == 0
                    } else {
                        &&& post.snake == pre.snake.push(nh)
                        &&& post.score as int == pre.score + 1
                    }
                } else {
                    &&& post.snake == pre.snake.subrange(1, pre.snake.len() as int).push(nh)
                    &&& post.food == pre.food
                    &&& post.score == pre.score
                    &&& post.high_score == pre.high_score
                    &&& post.direction == direction
                }
            }),
    {
        let len = self.snake.len();
        let allowed = if len == 1 {
            true
        } else {
            match (self.direction, direction) {
                (Direction::Up, Direction::Down) => false,
                (Direction::Down, Direction::Up) => false,
                (Direction::Left, Direction::Right) => false,
                (Direction::Right, Direction::Left) => false,
                _ => true,
            }
        };
        if !allowed {
            return Err(GameError::InvalidDirection);
        }
        let head = self.snake[len - 1];
        proof {
            assert(coord_in_grid(old(self)@.snake[len - 1]));
            assert(head == old(self)@.head());
        }
        let nh_opt: Option<(usize, usize)> = match direction {
            Direction::Up => if head.1 > 0 {
                Some((head.0, head.1 - 1))
            } else {
                None
            },
            Direction::Down => if head.1 < SIZE - 1 {
                Some((head.0, head.1 + 1))
            } else {
                None
            },
            Direction::Left => if head.0 > 0 {
                Some((head.0 - 1, head.1))
            } else {
                None
            },
            Direction::Right => if head.0 < SIZE - 1 {
                Some((head.0 + 1, head.1))
            } else {
                None
            },
        };
        match nh_opt {
            None => {
                proof {
                    assert(old(self)@.hits_wall(direction));
                }
                self.setup(rng);
                Ok(())
            },
            Some(nh) => {
                proof {
                    assert(!old(self)@.hits_wall(direction));
                    assert(nh == old(self)@.target_coord(direction));
                    assert(coord_in_grid(nh));
                }
                if nh.0 == self.food.0 && nh.1 == self.food.1 {
                    proof {
                        assert(nh == old(self)@.food);
                        assert(old(self)@.eats(direction));
                        let s1 = old(self)@.snake.push(nh);
                        assert(s1.no_duplicates()) by {
                            assert(!old(self)@.snake.contains(nh));
                            assert forall|p: int, q: int|
                                0 <= p < q < s1.len() implies s1[p] != s1[q] by {
                                if q == s1.len() - 1 {
                                    assert(s1[p] == old(self)@.snake[p]);
                                }
                            }
                        }
                        assert(coords_in_grid(s1)) by {
                            assert forall|m: int| 0 <= m < s1.len() implies coord_in_grid(
                                #[trigger] s1[m]) by {
                                if m < s1.len() - 1 {
                                    assert(coord_in_grid(old(self)@.snake[m]));
                                }
                            }
                        }
                        lemma_distinct_coords_bounded(s1);
                    }
                    self.snake.push(nh);
                    self.score = self.score + 1;
                    if self.score > self.high_score {
                        self.high_score = self.score;
                    }
                    self.direction = direction;
                    if self.snake.len() == SIZE * SIZE {
                        self.setup(rng);
                    } else {
                        self.place_food(rng);
                    }
                    Ok(())
                } else {
                    if coords_contain_from(&self.snake, 1, nh) {
                        proof {
                            assert(old(self)@.hits_self(direction));
                        }
                        self.setup(rng);
                        return Ok(());
                    }
                    proof {
                        assert(!old(self)@.hits_self(direction));
                        assert(!old(self)@.eats(direction));
                    }
                    let ghost pre_snake = self.snake@;
                    self.snake.push(nh);
                    let _tail = self.snake.remove(0);
                    self.direction = direction;
                    proof {
                        let body = pre_snake.subrange(1, pre_snake.len() as int);
                        assert(self.snake@ =~= body.push(nh));
                        let s2 = self.snake@;
                        assert(s2.no_duplicates()) by {
                            assert forall|p: int, q: int|
                                0 <= p < q < s2.len() implies s2[p] != s2[q] by {
                                if q == s2.len() - 1 {
                                    assert(s2[p] == body[p]);
                                    assert(body.contains(body[p]));
                                } else {
                                    assert(s2[p] == pre_snake[p + 1]);
                                    assert(s2[q] == pre_snake[q + 1]);
                                }
                            }
                        }
                        assert(coords_in_grid(s2)) by {
                            assert forall|m: int| 0 <= m < s2.len() implies coord_in_grid(
                                #[trigger] s2[m]) by {
                                if m < s2.len() - 1 {
                                    assert(s2[m] == pre_snake[m + 1]);
                                    assert(coord_in_grid(pre_snake[m + 1]));
                                }
                            }
                        }
                        assert(!s2.contains(self.food)) by {
                            assert(nh != old(self)@.food);
                            assert forall|m: int| 0 <= m < s2.len() implies s2[m] != self.food by {
                                if m < s2.len() - 1 {
                                    assert(s2[m] == pre_snake[m + 1]);
                                    assert(pre_snake.contains(pre_snake[m + 1]));
                                }
                            }
                        }
                    }
                    self.update_grid();
                    Ok(())
                }
            },
        }
    }

    /// The textual picture of the board: one glyph per cell, one line per
    /// row, a blank line, and the score line.
    pub fn to_string(&self) -> (r: String)
        requires
            self@.wf(),
        ensures
            r@ == render_text(self@.grid, self@.score),
    {
        proof {
            reveal_strlit("\n");
        }
        let ghost g = self@.grid;
        let mut s = String::new();
        assert(s@ =~= rows_text(g, 0));
        let mut y: usize = 0;
        while y < SIZE
            invariant
                y <= SIZE,
                self@.wf(),
                g == self@.grid,
                "\n"@ == seq!['\n'],
                s@ == rows_text(g, y as int),
            decreases SIZE - y,
        {
            let mut x: usize = 0;
            assert(s@ + row_text(g, y as int).subrange(0, 0) =~= s@);
            while x < SIZE
                invariant
                    x <= SIZE,
                    y < SIZE,
                    self@.wf(),
                    g == self@.grid,
                    s@ == rows_text(g, y as int) + row_text(g, y as int).subrange(0, x as int),
                decreases SIZE - x,
            {
                let idx = y * SIZE + x;
                s.append(block_str(self.grid[idx]));
                proof {
                    let row = row_text(g, y as int);
                    assert(row[x as int] == block_char(g[y * SIZE + x]));
                    assert(row.subrange(0, x + 1 as int) =~= row.subrange(0, x as int).push(
                        row[x as int]));
                    assert(s@ =~= rows_text(g, y as int) + row.subrange(0, x + 1 as int));
                }
                x += 1;
            }
            s.append("\n");
            proof {
                let row = row_text(g, y as int);
                assert(row.subrange(0, SIZE as int).push('\n') =~= row);
                assert(s@ =~= rows_text(g, y as int) + row);
                assert(rows_text(g, y + 1 as int) == rows_text(g, y as int) + row);
            }
            y += 1;
        }
        s.append("\n");
        s.append("Score: ");
        let sc = u8_to_string(self.score);
        s.append(sc.as_str());
        proof {
            assert(s@ =~= rows_text(g, SIZE as int) + seq!['\n'] + "Score: "@ + decimal(
                self@.score as int));
        }
        s
    }

    /// The headings accepted now, as up to four choices: all four on a
    /// length-one snake, otherwise the committed heading first and the
    /// two perpendicular to it.
    pub fn get_directions(&self) -> (r: (Direction, Direction, Direction, Option<Direction>))
        ensures
            forall|d: Direction| #[trigger] offers(r, d) <==> self@.move_allowed(d),
            self@.snake.len() == 1 ==> r == (
                Direction::Up,
                Direction::Down,
                Direction::Left,
                Some(Direction::Right),
            ),
            self@.snake.len() != 1 ==> r == ((match self@.direction {
                Direction::Up => (Direction::Up, Direction::Left, Direction::Right, None::<Direction>),
                Direction::Down => (Direction::Down, Direction::Left, Direction::Right, None::<Direction>),
                Direction::Left => (Direction::Left, Direction::Up, Direction::Down, None::<Direction>),
                Direction::Right => (Direction::Right, Direction::Up, Direction::Down, None::<Direction>),
            })),
    {
        if self.snake.len() == 1 {
            (Direction::Up, Direction::Down, Direction::Left, Some(Direction::Right))
        } else {
            let v = self.direction.get_valid_dir();
            (v.0, v.1, v.2, None)
        }
    }

    /// The committed heading.
    pub fn get_current_direction(&self) -> (r: Direction)
        ensures
            r == self@.direction,
    {
        self.direction
    }

    /// Serializes the state: the direction letter, the food coordinate,
    /// and every snake coordinate tail first, comma-separated.
    pub fn create_backup(&self) -> (r: String)
        requires
            self@.wf(),
        ensures
            r@ == backup_text(self@.direction, self@.food, self@.snake),
    {
        proof {
            reveal_strlit(",");
        }
        let mut s = String::new();
        s.append(self.direction.as_str());
        s.append(",");
        s.append(digit_str(self.food.0 as u8));
        s.append(",");
        s.append(digit_str(self.food.1 as u8));
        proof {
            assert(s@ =~= seq![dir_char(self@.direction)] + pair_text(self@.food) + snake_text(
                self@.snake.subrange(0, 0)));
        }
        let mut k: usize = 0;
        while k < self.snake.len()
            invariant
                k <= self@.snake.len(),
                self@.wf(),
                ","@ == seq![','],
                s@ == seq![dir_char(self@.direction)] + pair_text(self@.food) + snake_text(
                    self@.snake.subrange(0, k as int)),
            decreases self@.snake.len() - k,
        {
            let c = self.snake[k];
            proof {
                assert(coord_in_grid(self@.snake[k as int]));
            }
            s.append(",");
            s.append(digit_str(c.0 as u8));
            s.append(",");
            s.append(digit_str(c.1 as u8));
            proof {
                let pfx = self@.snake.subrange(0, k as int);
                let pfx1 = self@.snake.subrange(0, k + 1 as int);
                assert(pfx1.drop_last() =~= pfx);
                assert(pfx1.last() == c);
                assert(snake_text(pfx1) == snake_text(pfx) + pair_text(c));
                assert(s@ =~= seq![dir_char(self@.direction)] + pair_text(self@.food) + snake_text(
                    pfx1));
            }
            k += 1;
        }
        proof {
            assert(self@.snake.subrange(0, self@.snake.len() as int) =~= self@.snake);
        }
        s
    }

    /// Restores a state from a backup text. A text that does not encode a
    /// well-formed state is reported as `MalformedBackup` and changes
    /// nothing; otherwise the direction, food, and snake are exactly the
    /// encoded ones, the score is derived from the snake's length, and
    /// the high score is kept.
    pub fn import(&mut self, backup: String) -> (r: Result<(), GameError>)
        requires
            old(self)@.wf(),
        ensures
            final(self)@.wf(),
            r is Ok <==> backup_valid(backup@),
            r is Ok ==> {
                &&& final(self)@.direction == parsed_dir(backup@)
                &&& final(self)@.food == parsed_food(backup@)
                &&& final(self)@.snake == parsed_snake(backup@)
                &&& final(self)@.score as int == parsed_snake(backup@).len() - 1
                &&& final(self)@.high_score == old(self)@.high_score
            },
            r is Err ==> *final(self) == *old(self) && r == Err::<(), GameError>(
                GameError::MalformedBackup,
            ),
    {
        let v = chars_of(backup.as_str());
        let parsed = parse_backup(&v);
        match parsed {
            None => Err(GameError::MalformedBackup),
            Some((d, food, snake)) => {
                proof {
                    assert(snake@ == parsed_snake(backup@));
                    assert(coords_in_grid(snake@)) by {
                        assert forall|j: int| 0 <= j < snake@.len() implies coord_in_grid(
                            #[trigger] snake@[j]) by {
                            assert(snake_group_ok(backup@, j));
                        }
                    }
                    assert(snake@.len() >= 1);
                }
                if coords_have_duplicate(&snake) {
                    return Err(GameError::MalformedBackup);
                }
                if coords_contain(&snake, food) {
                    return Err(GameError::MalformedBackup);
                }
                proof {
                    assert(food == parsed_food(backup@));
                    assert(backup_valid(backup@));
                    lemma_distinct_coords_bounded(snake@);
                }
                self.direction = d;
                self.food = food;
                self.snake = snake;
                let sl = self.snake.len();
                self.score = (sl - 1) as u8;
                self.update_grid();
                Ok(())
            },
        }
    }

    /// The highest score any episode has reached.
    pub fn get_highscore(&self) -> (r: u8)
        ensures
            r == self@.high_score,
    {
        self.high_score
    }

    /// Seeds the high score from externally persisted storage.
    pub fn import_highscore(&mut self, score: u8)
        ensures
            final(self)@ == (GameView { high_score: score, ..old(self)@ }),
    {
        self.high_score = score;
    }
}

/// Law: in a well-formed state the food lies on no snake coordinate.
pub proof fn lemma_food_off_snake(g: GameView)
    requires
        g.wf(),
    ensures
        !g.snake.contains(g.food),
{
}

/// Law: in a well-formed state no snake coordinate repeats.
pub proof fn lemma_snake_distinct(g: GameView)
    requires
        g.wf(),
    ensures
        g.snake.no_duplicates(),
{
}

/// Law: the backup text of a well-formed state is valid and parses back
/// to the same direction, food, and snake, so restoring a serialized
/// state reproduces it with the score derived from the snake's length.
pub proof fn lemma_state_round_trip(g: GameView)
    requires
        g.wf(),
    ensures
        backup_valid(backup_text(g.direction, g.food, g.snake)),
        parsed_dir(backup_text(g.direction, g.food, g.snake)) == g.direction,
        parsed_food(backup_text(g.direction, g.food, g.snake)) == g.food,
        parsed_snake(backup_text(g.direction, g.food, g.snake)) == g.snake,
{
    lemma_backup_round_trip(g.direction, g.food, g.snake);
}

} // verus!
