//! The mathematical model of the jump world: what a tick does to the walls and
//! to the player, what it pays, and what the board shows.

use crate::tile::JumpEnvironmentTile;
use vstd::prelude::*;

verus! {

/// Row of the floor.
pub const GROUND_HEIGHT: usize = 2;

/// Column in which the player stays for the whole episode.
pub const PLAYER_COLUMN: usize = 2;

/// Vertical speed that a jump from the floor gives.
pub const JUMP_IMPULSE: i8 = 2;

/// A new wall enters once the nearest one is more than this many columns
/// away from the right edge.
pub const WALL_SPACING: usize = 5;

/// The smallest board: room for the player, the floor and a wall to jump.
pub const MIN_SIZE: usize = 6;

/// An obstacle two cells tall: it fills `bottom` and `bottom + 1` of `column`.
#[derive(Clone, Copy, Debug, PartialEq, Eq, Structural)]
pub struct Wall {
    pub column: usize,
    pub bottom: usize,
}

/// The world between two ticks.
pub struct World {
    /// The board has `size` columns and `size` rows.
    pub size: nat,
    /// Row of the player.
    pub row: nat,
    /// Vertical speed of the player, upwards positive.
    pub velocity: int,
    /// The walls on the board, those that entered first in front.
    pub walls: Seq<Wall>,
}

/// Row on which the player stands when it is on the floor.
pub open spec fn rest_row() -> nat {
    (GROUND_HEIGHT + 1) as nat
}

/// Largest offset above the floor at which a wall may enter a board of `size`.
pub open spec fn max_offset(size: nat) -> int {
    size - 4
}

/// The offsets at which a wall may enter: both of its cells are then on the
/// board and above the floor.
pub open spec fn offset_allowed(size: nat, offset: nat) -> bool {
    1 <= offset <= max_offset(size)
}

// ---------------------------------------------------------------- walls

/// A wall that is not yet in the leftmost column stays on the board.
pub open spec fn stays(wall: Wall) -> bool {
    wall.column > 0
}

/// The wall one column further left.
pub open spec fn shifted(wall: Wall) -> Wall {
    Wall { column: (wall.column - 1) as usize, bottom: wall.bottom }
}

/// The walls after scrolling: those in the leftmost column leave, the others
/// move one column to the left and keep their order and their rows.
pub open spec fn scrolled(walls: Seq<Wall>) -> Seq<Wall> {
    walls.filter(|w: Wall| stays(w)).map_values(|w: Wall| shifted(w))
}

/// Whether a wall must enter: no wall is left within `WALL_SPACING` columns of
/// the right edge. That is so, in particular, when no wall is left at all.
pub open spec fn spawn_due(walls: Seq<Wall>, size: nat) -> bool {
    forall|i: int| 0 <= i < walls.len() ==> #[trigger] walls[i].column + WALL_SPACING < size
}

/// The wall that enters at `offset` above the floor: in the rightmost column.
pub open spec fn entering(size: nat, offset: nat) -> Wall {
    Wall { column: (size - 1) as usize, bottom: (GROUND_HEIGHT + offset) as usize }
}

/// The walls after one tick: scrolled, and one more where one is due.
pub open spec fn next_walls(walls: Seq<Wall>, size: nat, offset: nat) -> Seq<Wall> {
    let moved = scrolled(walls);
    if spawn_due(moved, size) {
        moved.push(entering(size, offset))
    } else {
        moved
    }
}

/// Whether `wall` fills the cell at `column`, `row`.
pub open spec fn covers(wall: Wall, column: int, row: int) -> bool {
    wall.column == column && (row == wall.bottom || row == wall.bottom + 1)
}

/// Whether some wall fills the cell at `column`, `row`.
pub open spec fn wall_at(walls: Seq<Wall>, column: int, row: int) -> bool {
    exists|i: int| 0 <= i < walls.len() && covers(#[trigger] walls[i], column, row)
}

/// Whether some wall stands in `column`.
pub open spec fn wall_in_column(walls: Seq<Wall>, column: int) -> bool {
    exists|i: int| 0 <= i < walls.len() && (#[trigger] walls[i]).column == column
}

/// Whether every wall in `column` ends below `row`.
pub open spec fn walls_below(walls: Seq<Wall>, column: int, row: int) -> bool {
    forall|i: int|
        0 <= i < walls.len() && (#[trigger] walls[i]).column == column ==> walls[i].bottom + 1
            < row
}

// ---------------------------------------------------------------- player

/// The speed with which the player enters the tick: a jump asked for on the
/// floor gives the impulse, anything else leaves the speed as it is.
pub open spec fn launch_velocity(row: nat, velocity: int, action: nat) -> int {
    if action == 1 && row == rest_row() {
        JUMP_IMPULSE as int
    } else {
        velocity
    }
}

/// The row after moving by `velocity`, kept between the floor and the top row.
pub open spec fn next_row(row: nat, velocity: int, size: nat) -> nat {
    let target = row + velocity;
    if target < rest_row() {
        rest_row()
    } else if target > size - 1 {
        (size - 1) as nat
    } else {
        target as nat
    }
}

/// The speed after the move: gravity takes one unit in the air, and the floor
/// takes all of it.
pub open spec fn next_velocity(new_row: nat, velocity: int) -> int {
    if new_row == rest_row() {
        0
    } else {
        velocity - 1
    }
}

// ---------------------------------------------------------------- the tick

/// One tick of a running episode: the walls scroll, a wall enters at `offset`
/// where one is due, the action is applied and the player moves.
pub open spec fn tick(w: World, action: nat, offset: nat) -> World {
    let velocity = launch_velocity(w.row, w.velocity, action);
    let row = next_row(w.row, velocity, w.size);
    World {
        size: w.size,
        row,
        velocity: next_velocity(row, velocity),
        walls: next_walls(w.walls, w.size, offset),
    }
}

/// Whether the player is inside a wall.
pub open spec fn crashed(w: World) -> bool {
    wall_at(w.walls, PLAYER_COLUMN as int, w.row as int)
}

/// Whether the player is over a wall: one stands in its column, and every
/// wall there ends below the player.
pub open spec fn cleared(w: World) -> bool {
    wall_in_column(w.walls, PLAYER_COLUMN as int) && walls_below(
        w.walls,
        PLAYER_COLUMN as int,
        w.row as int,
    )
}

/// What the world pays: -1 for a crash, 1 for being over a wall, else 0.
pub open spec fn reward(w: World) -> int {
    if crashed(w) {
        -1
    } else if cleared(w) {
        1
    } else {
        0
    }
}

// ---------------------------------------------------------------- the board

/// What the cell at `column`, `row` shows: the player hides a wall, a wall
/// hides the floor.
pub open spec fn tile_at(w: World, column: int, row: int) -> JumpEnvironmentTile {
    if column == PLAYER_COLUMN && row == w.row {
        JumpEnvironmentTile::Player
    } else if wall_at(w.walls, column, row) {
        JumpEnvironmentTile::Wall
    } else if row == GROUND_HEIGHT {
        JumpEnvironmentTile::Ground
    } else {
        JumpEnvironmentTile::Empty
    }
}

/// The board, column after column from the left, each from its lowest row up:
/// the cell at `column`, `row` has index `column * size + row`.
pub open spec fn grid(w: World) -> Seq<JumpEnvironmentTile> {
    Seq::new(w.size * w.size, |i: int| tile_at(w, i / (w.size as int), i % (w.size as int)))
}

// ---------------------------------------------------------------- validity

/// Whether both cells of `wall` are on a board of `size` and above the floor.
pub open spec fn on_board(wall: Wall, size: nat) -> bool {
    wall.column < size && GROUND_HEIGHT < wall.bottom && wall.bottom + 1 < size
}

/// Whether `right` stands at least `WALL_SPACING` columns to the right of
/// `left`.
pub open spec fn apart(left: Wall, right: Wall) -> bool {
    left.column + WALL_SPACING <= right.column
}

/// Whether the walls stand in order from left to right, each apart from all
/// that follow.
pub open spec fn spaced(walls: Seq<Wall>) -> bool {
    forall|i: int, j: int| 0 <= i < j < walls.len() ==> #[trigger] apart(walls[i], walls[j])
}

/// How far above the floor the player can be with a given speed.
pub open spec fn reach(velocity: int) -> int {
    if velocity == 1 || velocity == -2 {
        2
    } else {
        3
    }
}

/// Whether row and speed fit a flight that began with a jump from the floor:
/// on the floor the player is at rest, and in the air its speed bounds its
/// height.
pub open spec fn flight_ok(row: nat, velocity: int) -> bool {
    &&& -2 <= velocity <= 1
    &&& row == rest_row() ==> velocity == 0
    &&& row <= rest_row() + reach(velocity)
}

/// What holds of the world at every tick of every episode.
pub open spec fn valid(w: World) -> bool {
    &&& MIN_SIZE <= w.size <= usize::MAX
    &&& rest_row() <= w.row < w.size
    &&& flight_ok(w.row, w.velocity)
    &&& w.walls.len() > 0
    &&& forall|i: int| 0 <= i < w.walls.len() ==> on_board(#[trigger] w.walls[i], w.size)
    &&& spaced(w.walls)
}

/// The world in which every episode on a board of `size` begins: the player
/// at rest on the floor, one wall on the floor in the rightmost column.
pub open spec fn initial(size: nat) -> World {
    World {
        size,
        row: rest_row(),
        velocity: 0,
        walls: seq![Wall { column: (size - 1) as usize, bottom: (GROUND_HEIGHT + 1) as usize }],
    }
}

} // verus!
