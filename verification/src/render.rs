//! The board as text: one line for each row, the top row first.

use crate::jump_environment::JumpEnvironment;
use crate::tile::JumpEnvironmentTile;
use crate::world::{tile_at, World};
use vstd::prelude::*;
use vstd::string::*;

verus! {

/// The character for the cell at `column`, `row`: a blank for an empty cell,
/// `#` for the ground, `|` for a wall. The player is `x` once the episode has
/// ended, else `O` at rest and `o` in motion.
pub open spec fn glyph(w: World, done: bool, column: int, row: int) -> char {
    match tile_at(w, column, row) {
        JumpEnvironmentTile::Empty => ' ',
        JumpEnvironmentTile::Ground => '#',
        JumpEnvironmentTile::Wall => '|',
        JumpEnvironmentTile::Player => if done {
            'x'
        } else if w.velocity == 0 {
            'O'
        } else {
            'o'
        },
    }
}

/// The line for `row`: one character for each column, from the left.
pub open spec fn rendered_line(w: World, done: bool, row: int) -> Seq<char> {
    Seq::new(w.size, |column: int| glyph(w, done, column, row))
}

/// The lines for the `count` highest rows, the top row first, with a line
/// feed between one line and the next and none at the end.
pub open spec fn rendered_lines(w: World, done: bool, count: nat) -> Seq<char>
    decreases count,
{
    if count == 0 {
        Seq::empty()
    } else if count == 1 {
        rendered_line(w, done, w.size - 1)
    } else {
        rendered_lines(w, done, (count - 1) as nat) + seq!['\n'] + rendered_line(
            w,
            done,
            w.size - count,
        )
    }
}

/// The whole board as text.
pub open spec fn rendered(w: World, done: bool) -> Seq<char> {
    rendered_lines(w, done, w.size)
}

impl JumpEnvironment {
    /// The text for one cell.
    fn mark(&self, column: usize, row: usize) -> (mark: &'static str)
        ensures
            mark@ == seq![glyph(self@, self.done, column as int, row as int)],
    {
        proof {
            reveal_strlit(" ");
            reveal_strlit("#");
            reveal_strlit("|");
            reveal_strlit("x");
            reveal_strlit("O");
            reveal_strlit("o");
        }
        let mark = match self.tile(column, row) {
            JumpEnvironmentTile::Empty => " ",
            JumpEnvironmentTile::Ground => "#",
            JumpEnvironmentTile::Wall => "|",
            JumpEnvironmentTile::Player => {
                if self.done {
                    "x"
                } else if self.player_vel == 0 {
                    "O"
                } else {
                    "o"
                }
            },
        };
        assert(mark@ =~= seq![glyph(self@, self.done, column as int, row as int)]);
        mark
    }

    /// Draws the board as text, the top row first.
    pub fn render(&self) -> (text: String)
        ensures
            text@ == rendered(self@, self.done),
    {
        let size = self.size;
        let mut text = String::new();
        let mut line: usize = 0;
        while line < size
            invariant
                line <= size,
                size == self.size,
                text@ == rendered_lines(self@, self.done, line as nat),
            decreases size - line,
        {
            let row = size - 1 - line;
            if line > 0 {
                proof {
                    reveal_strlit("\n");
                }
                text.append("\n");
                assert(text@ =~= rendered_lines(self@, self.done, line as nat) + seq!['\n']);
            }
            let ghost head = text@;
            let mut column: usize = 0;
            while column < size
                invariant
                    column <= size,
                    size == self.size,
                    row < size,
                    text@ == head + rendered_line(self@, self.done, row as int).take(
                        column as int,
                    ),
                decreases size - column,
            {
                let mark = self.mark(column, row);
                text.append(mark);
                assert(rendered_line(self@, self.done, row as int).take(column + 1)
                    =~= rendered_line(self@, self.done, row as int).take(column as int).push(
                    glyph(self@, self.done, column as int, row as int),
                ));
                assert(text@ =~= head + rendered_line(self@, self.done, row as int).take(
                    column + 1,
                ));
                column += 1;
            }
            assert(rendered_line(self@, self.done, row as int).take(size as int)
                =~= rendered_line(self@, self.done, row as int));
            line += 1;
        }
        text
    }
}

} // verus!
