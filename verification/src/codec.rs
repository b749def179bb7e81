//! The backup text form: a direction letter, then the food coordinate,
//! then every snake coordinate tail first, all as comma-separated digits.
//! This module fixes the exact text a state serializes to, which texts
//! deserialize, and that the two directions agree.

use vstd::prelude::*;
use crate::direction::{dir_char, dir_of_char, Direction};
use crate::board::{coord_in_grid, coords_in_grid};
use crate::text::digit_char;

verus! {

/// Whether a glyph encodes a grid coordinate: a digit below the grid size.
pub open spec fn is_coord_char(c: char) -> bool {
    c == '0' || c == '1' || c == '2' || c == '3' || c == '4' || c == '5'
}

/// The coordinate a glyph encodes; glyphs of no coordinate map to zero,
/// which no caller asks for.
pub open spec fn coord_val(c: char) -> usize {
    if c == '1' {
        1
    } else if c == '2' {
        2
    } else if c == '3' {
        3
    } else if c == '4' {
        4
    } else if c == '5' {
        5
    } else {
        0
    }
}

/// The text of one coordinate: a comma, its column, a comma, its row.
pub open spec fn pair_text(c: (usize, usize)) -> Seq<char> {
    seq![',', digit_char(c.0 as int), ',', digit_char(c.1 as int)]
}

/// The text of the snake's coordinates, tail first.
pub open spec fn snake_text(s: Seq<(usize, usize)>) -> Seq<char>
    decreases s.len(),
{
    if s.len() == 0 {
        Seq::empty()
    } else {
        snake_text(s.drop_last()) + pair_text(s.last())
    }
}

/// The full backup text of a game state.
pub open spec fn backup_text(d: Direction, food: (usize, usize), snake: Seq<(usize, usize)>) -> Seq<
    char,
> {
    seq![dir_char(d)] + pair_text(food) + snake_text(snake)
}

/// How many snake coordinates a backup text of this length encodes.
pub open spec fn snake_count(s: Seq<char>) -> int {
    (s.len() - 5) / 4
}

/// The four glyphs encoding snake coordinate `i` have their shape: a
/// comma, a digit, a comma, a digit.
pub open spec fn snake_group_ok(s: Seq<char>, i: int) -> bool {
    &&& s[5 + 4 * i] == ','
    &&& is_coord_char(s[6 + 4 * i])
    &&& s[7 + 4 * i] == ','
    &&& is_coord_char(s[8 + 4 * i])
}

/// Whether a text has the backup shape: a direction letter, the food
/// pair, and at least one snake pair, each coordinate a single digit
/// below the grid size.
pub open spec fn backup_grammar_ok(s: Seq<char>) -> bool {
    &&& s.len() >= 9
    &&& (s.len() - 5) % 4 == 0
    &&& dir_of_char(s[0]) is Some
    &&& s[1] == ','
    &&& is_coord_char(s[2])
    &&& s[3] == ','
    &&& is_coord_char(s[4])
    &&& forall|i: int| 0 <= i < snake_count(s) ==> #[trigger] snake_group_ok(s, i)
}

/// The direction a backup text encodes.
pub open spec fn parsed_dir(s: Seq<char>) -> Direction {
    match dir_of_char(s[0]) {
        Some(d) => d,
        None => Direction::Up,
    }
}

/// The food coordinate a backup text encodes.
pub open spec fn parsed_food(s: Seq<char>) -> (usize, usize) {
    (coord_val(s[2]), coord_val(s[4]))
}

/// The snake coordinates a backup text encodes, tail first.
pub open spec fn parsed_snake(s: Seq<char>) -> Seq<(usize, usize)> {
    Seq::new(snake_count(s) as nat, |i: int| (coord_val(s[6 + 4 * i]), coord_val(s[8 + 4 * i])))
}

/// Whether a text deserializes: it has the backup shape and the state it
/// encodes keeps the game's invariants, with no coordinate repeated and
/// the food on none of them.
pub open spec fn backup_valid(s: Seq<char>) -> bool {
    &&& backup_grammar_ok(s)
    &&& parsed_snake(s).no_duplicates()
    &&& !parsed_snake(s).contains(parsed_food(s))
}

/// The snake's text is four glyphs per coordinate.
pub proof fn lemma_snake_text_len(s: Seq<(usize, usize)>)
    ensures
        snake_text(s).len() == 4 * s.len(),
    decreases s.len(),
{
    if s.len() > 0 {
        lemma_snake_text_len(s.drop_last());
    }
}

/// The four glyphs of coordinate `i` in the snake's text.
pub proof fn lemma_snake_text_index(s: Seq<(usize, usize)>, i: int)
    requires
        0 <= i < s.len(),
    ensures
        snake_text(s)[4 * i] == ',',
        snake_text(s)[4 * i + 1] == digit_char(s[i].0 as int),
        snake_text(s)[4 * i + 2] == ',',
        snake_text(s)[4 * i + 3] == digit_char(s[i].1 as int),
    decreases s.len(),
{
    lemma_snake_text_len(s.drop_last());
    if i == s.len() - 1 {
        assert(s.last() == s[i]);
    } else {
        lemma_snake_text_index(s.drop_last(), i);
    }
}

/// Serializing a well-formed state and parsing the text back yields the
/// same direction, food, and snake; in particular the text is valid.
pub proof fn lemma_backup_round_trip(d: Direction, food: (usize, usize), snake: Seq<(usize, usize)>)
    requires
        coord_in_grid(food),
        coords_in_grid(snake),
        snake.len() >= 1,
        snake.no_duplicates(),
        !snake.contains(food),
    ensures
        backup_valid(backup_text(d, food, snake)),
        parsed_dir(backup_text(d, food, snake)) == d,
        parsed_food(backup_text(d, food, snake)) == food,
        parsed_snake(backup_text(d, food, snake)) == snake,
{
    let t = backup_text(d, food, snake);
    lemma_snake_text_len(snake);
    assert(t.len() == 5 + 4 * snake.len());
    assert(snake_count(t) == snake.len());
    assert(dir_of_char(t[0]) == Some(d));
    assert forall|i: int| 0 <= i < snake_count(t) implies #[trigger] snake_group_ok(t, i) by {
        lemma_snake_text_index(snake, i);
        assert(t[5 + 4 * i] == snake_text(snake)[4 * i]);
        assert(t[6 + 4 * i] == snake_text(snake)[4 * i + 1]);
        assert(t[7 + 4 * i] == snake_text(snake)[4 * i + 2]);
        assert(t[8 + 4 * i] == snake_text(snake)[4 * i + 3]);
        assert(coord_in_grid(snake[i]));
    }
    assert(backup_grammar_ok(t));
    assert forall|i: int| 0 <= i < snake.len() implies #[trigger] parsed_snake(t)[i] == snake[i] by {
        lemma_snake_text_index(snake, i);
        assert(t[6 + 4 * i] == snake_text(snake)[4 * i + 1]);
        assert(t[8 + 4 * i] == snake_text(snake)[4 * i + 3]);
        assert(coord_in_grid(snake[i]));
    }
    assert(parsed_snake(t) =~= snake);
}

/// Splits a backup text into the direction, the food coordinate, and the
/// snake coordinates it encodes; a text without the backup shape yields
/// nothing.
pub fn parse_backup(v: &Vec<char>) -> (r: Option<(Direction, (usize, usize), Vec<(usize, usize)>)>)
    ensures
        r is Some <==> backup_grammar_ok(v@),
        (match r {
            Some(t) => {
                &&& Some(t.0) == dir_of_char(v@[0])
                &&& t.1 == parsed_food(v@)
                &&& t.2@ == parsed_snake(v@)
            },
            None => true,
        }),
{
    let n = v.len();
    if n < 9 || (n - 5) % 4 != 0 {
        return None;
    }
    let d = match crate::direction::dir_from_char(v[0]) {
        Some(d) => d,
        None => {
            return None;
        },
    };
    if v[1] != ',' {
        return None;
    }
    let fx = match coord_from_char(v[2]) {
        Some(x) => x,
        None => {
            return None;
        },
    };
    if v[3] != ',' {
        return None;
    }
    let fy = match coord_from_char(v[4]) {
        Some(y) => y,
        None => {
            return None;
        },
    };
    let k = (n - 5) / 4;
    proof {
        assert(4 * k == n - 5);
        assert(k == snake_count(v@));
    }
    let mut snake: Vec<(usize, usize)> = Vec::new();
    let mut i: usize = 0;
    while i < k
        invariant
            i <= k,
            n == v@.len(),
            n >= 9,
            4 * k == n - 5,
            k == snake_count(v@),
            snake@.len() == i,
            forall|j: int| 0 <= j < i ==> #[trigger] snake_group_ok(v@, j),
            forall|j: int|
                0 <= j < i ==> #[trigger] snake@[j] == (
                    coord_val(v@[6 + 4 * j]),
                    coord_val(v@[8 + 4 * j]),
                ),
        decreases k - i,
    {
        if v[5 + 4 * i] != ',' {
            assert(!snake_group_ok(v@, i as int));
            return None;
        }
        let x = match coord_from_char(v[6 + 4 * i]) {
            Some(x) => x,
            None => {
                assert(!snake_group_ok(v@, i as int));
                return None;
            },
        };
        if v[7 + 4 * i] != ',' {
            assert(!snake_group_ok(v@, i as int));
            return None;
        }
        let y = match coord_from_char(v[8 + 4 * i]) {
            Some(y) => y,
            None => {
                assert(!snake_group_ok(v@, i as int));
                return None;
            },
        };
        snake.push((x, y));
        proof {
            assert(snake_group_ok(v@, i as int));
        }
        i += 1;
    }
    proof {
        assert(backup_grammar_ok(v@));
        assert(snake@ =~= parsed_snake(v@));
    }
    Some((d, (fx, fy), snake))
}

/// Whether a glyph encodes a grid coordinate, and which.
pub fn coord_from_char(c: char) -> (r: Option<usize>)
    ensures
        r is Some <==> is_coord_char(c),
        r is Some ==> r == Some(coord_val(c)),
{
    if c == '0' {
        Some(0)
    } else if c == '1' {
        Some(1)
    } else if c == '2' {
        Some(2)
    } else if c == '3' {
        Some(3)
    } else if c == '4' {
        Some(4)
    } else if c == '5' {
        Some(5)
    } else {
        None
    }
}

} // verus!
