//! The snake's heading and the rule that says which heading may follow
//! which: the direct reversal of the committed heading is never accepted.

use vstd::prelude::*;

verus! {

/// A heading on the grid. `y` grows downward, so `Up` lowers `y`.
#[derive(PartialEq, Eq, Structural, Debug, Copy, Clone)]
pub enum Direction {
    Up,
    Down,
    Left,
    Right,
}

/// The single-letter code a direction carries in the backup text.
pub open spec fn dir_char(d: Direction) -> char {
    match d {
        Direction::Up => 'u',
        Direction::Down => 'd',
        Direction::Left => 'l',
        Direction::Right => 'r',
    }
}

/// The direction a single-letter code stands for, if any.
pub open spec fn dir_of_char(c: char) -> Option<Direction> {
    if c == 'u' {
        Some(Direction::Up)
    } else if c == 'd' {
        Some(Direction::Down)
    } else if c == 'l' {
        Some(Direction::Left)
    } else if c == 'r' {
        Some(Direction::Right)
    } else {
        None
    }
}

/// The direction a whole string stands for: one recognised letter.
pub open spec fn dir_of_seq(s: Seq<char>) -> Option<Direction> {
    if s.len() == 1 {
        dir_of_char(s[0])
    } else {
        None
    }
}

/// The 180-degree reversal of a heading.
pub open spec fn opposite(d: Direction) -> Direction {
    match d {
        Direction::Up => Direction::Down,
        Direction::Down => Direction::Up,
        Direction::Left => Direction::Right,
        Direction::Right => Direction::Left,
    }
}

/// The arrow glyph offered to the outside caller for a direction.
pub open spec fn dir_emoji(d: Direction) -> Seq<char> {
    match d {
        Direction::Up => "⬆️"@,
        Direction::Down => "⬇️"@,
        Direction::Left => "⬅️"@,
        Direction::Right => "➡️"@,
    }
}

impl Direction {
    /// The single-letter backup code of this direction.
    pub fn as_str(&self) -> (r: &str)
        ensures
            r@ == seq![dir_char(*self)],
    {
        proof {
            reveal_strlit("u");
            reveal_strlit("d");
            reveal_strlit("l");
            reveal_strlit("r");
        }
        match self {
            Direction::Up => "u",
            Direction::Down => "d",
            Direction::Left => "l",
            Direction::Right => "r",
        }
    }

    /// Replaces this direction by the one a string encodes; an
    /// unrecognised string leaves it as it was.
    pub fn import_str(&mut self, string: &str)
        ensures
            *final(self) == (match dir_of_seq(string@) {
                Some(d) => d,
                None => *old(self),
            }),
    {
        let n = string.unicode_len();
        if n == 1 {
            if let Some(d) = dir_from_char(string.get_char(0)) {
                *self = d;
            }
        }
    }

    /// The headings accepted after this one: itself and the two
    /// perpendicular to it, never the direct reversal.
    pub fn get_valid_dir(&self) -> (r: (Direction, Direction, Direction))
        ensures
            r == (match *self {
                Direction::Up => (Direction::Up, Direction::Left, Direction::Right),
                Direction::Down => (Direction::Down, Direction::Left, Direction::Right),
                Direction::Left => (Direction::Left, Direction::Up, Direction::Down),
                Direction::Right => (Direction::Right, Direction::Up, Direction::Down),
            }),
    {
        match self {
            Direction::Up => (Direction::Up, Direction::Left, Direction::Right),
            Direction::Down => (Direction::Down, Direction::Left, Direction::Right),
            Direction::Left => (Direction::Left, Direction::Up, Direction::Down),
            Direction::Right => (Direction::Right, Direction::Up, Direction::Down),
        }
    }

    /// The arrow glyph used when this direction is offered as a choice.
    pub fn get_emoji(&self) -> (r: String)
        ensures
            r@ == dir_emoji(*self),
    {
        match self {
            Direction::Up => String::from_str("⬆️"),
            Direction::Down => String::from_str("⬇️"),
            Direction::Left => String::from_str("⬅️"),
            Direction::Right => String::from_str("➡️"),
        }
    }
}

/// The direction a single character encodes, if any.
pub fn dir_from_char(c: char) -> (r: Option<Direction>)
    ensures
        r == dir_of_char(c),
{
    if c == 'u' {
        Some(Direction::Up)
    } else if c == 'd' {
        Some(Direction::Down)
    } else if c == 'l' {
        Some(Direction::Left)
    } else if c == 'r' {
        Some(Direction::Right)
    } else {
        None
    }
}

} // verus!
