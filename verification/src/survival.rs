//! Every wall can be passed: a player that jumps exactly when it has to never
//! ends the episode, wherever the walls enter.

use crate::laws::{lemma_scrolled_from, lemma_scrolled_keeps, lemma_tick_keeps_valid};
use crate::world::{
    apart, covers, crashed, entering, initial, next_walls, offset_allowed, on_board, rest_row,
    scrolled, shifted, spawn_due, stays, tick, valid, wall_in_column, Wall, World, MIN_SIZE,
    PLAYER_COLUMN, WALL_SPACING,
};
use vstd::prelude::*;

verus! {

/// Whether `wall` stands on the floor, one column before the player: it
/// reaches the player's cell on the next tick.
pub open spec fn blocks_next(wall: Wall) -> bool {
    wall.column == PLAYER_COLUMN + 1 && wall.bottom == rest_row()
}

/// Whether some wall is about to reach the player's cell on the floor.
pub open spec fn wall_ahead(w: World) -> bool {
    exists|i: int| 0 <= i < w.walls.len() && blocks_next(#[trigger] w.walls[i])
}

/// What a careful player does: it jumps exactly when it stands on the floor
/// and a wall is about to reach it there, and waits otherwise.
pub open spec fn careful_action(w: World) -> nat {
    if w.row == rest_row() && wall_ahead(w) {
        1
    } else {
        0
    }
}

/// Whether `wall` leaves a player that flies with `velocity` the time to
/// land: it has passed the player's column, or is so far off that it reaches
/// that column only after the landing.
pub open spec fn gives_time(wall: Wall, velocity: int) -> bool {
    wall.column <= PLAYER_COLUMN + velocity - 1 || wall.column > PLAYER_COLUMN + velocity + 3
}

/// The worlds that a careful player moves through: valid, the player in no
/// wall, and while it is in the air, the wall it jumped over still where the
/// jump left it and every wall leaving it the time to land.
pub open spec fn safe(w: World) -> bool {
    &&& valid(w)
    &&& !crashed(w)
    &&& w.row > rest_row() ==> {
        &&& forall|i: int|
            0 <= i < w.walls.len() ==> gives_time(#[trigger] w.walls[i], w.velocity)
        &&& w.velocity >= -1 ==> wall_in_column(w.walls, PLAYER_COLUMN + w.velocity - 1)
    }
}

/// Every wall after a tick was on the board before it, one column further
/// right, or is the wall that entered.
pub proof fn lemma_next_walls_from(walls: Seq<Wall>, size: nat, offset: nat, j: int)
    requires
        0 <= j < next_walls(walls, size, offset).len(),
    ensures
        ({
            let wall = next_walls(walls, size, offset)[j];
            ||| exists|i: int|
                0 <= i < walls.len() && stays(#[trigger] walls[i]) && wall == shifted(walls[i])
            ||| spawn_due(scrolled(walls), size) && wall == entering(size, offset)
        }),
{
    if j < scrolled(walls).len() {
        lemma_scrolled_from(walls, j);
    }
}

/// Every wall that stays on the board is found again after a tick, one
/// column further left.
pub proof fn lemma_next_walls_keeps(walls: Seq<Wall>, size: nat, offset: nat, i: int)
    requires
        0 <= i < walls.len(),
        stays(walls[i]),
    ensures
        exists|j: int|
            0 <= j < next_walls(walls, size, offset).len() && #[trigger] next_walls(
                walls,
                size,
                offset,
            )[j] == shifted(walls[i]),
{
    lemma_scrolled_keeps(walls, i);
    let j = choose|j: int|
        0 <= j < scrolled(walls).len() && #[trigger] scrolled(walls)[j] == shifted(walls[i]);
    assert(next_walls(walls, size, offset)[j] == shifted(walls[i]));
}

/// An episode begins in a safe world.
pub proof fn lemma_initial_safe(size: nat)
    requires
        MIN_SIZE <= size <= usize::MAX,
    ensures
        safe(initial(size)),
{
}

/// A careful player is never caught: from a safe world, the tick on which it
/// does what `careful_action` says leads to a safe world again, wherever the
/// wall enters. So the episode of a careful player never ends.
pub proof fn lemma_careful_player_survives(w: World, offset: nat)
    requires
        safe(w),
        offset_allowed(w.size, offset),
    ensures
        safe(tick(w, careful_action(w), offset)),
        !crashed(tick(w, careful_action(w), offset)),
{
    let action = careful_action(w);
    let after = tick(w, action, offset);
    let pc = PLAYER_COLUMN as int;
    lemma_tick_keeps_valid(w, action, offset);
    if w.row == rest_row() {
        if wall_ahead(w) {
            let i0 = choose|i: int| 0 <= i < w.walls.len() && blocks_next(#[trigger] w.walls[i]);
            lemma_next_walls_keeps(w.walls, w.size, offset, i0);
            let j0 = choose|j: int|
                0 <= j < after.walls.len() && #[trigger] after.walls[j] == shifted(w.walls[i0]);
            assert(after.walls[j0].column == pc);
            assert forall|j: int| 0 <= j < after.walls.len() implies gives_time(
                #[trigger] after.walls[j],
                after.velocity,
            ) && !covers(after.walls[j], pc, after.row as int) by {
                if j < j0 {
                    assert(apart(after.walls[j], after.walls[j0]));
                } else if j0 < j {
                    assert(apart(after.walls[j0], after.walls[j]));
                }
            }
        } else {
            assert forall|j: int| 0 <= j < after.walls.len() implies !covers(
                #[trigger] after.walls[j],
                pc,
                after.row as int,
            ) by {
                lemma_next_walls_from(w.walls, w.size, offset, j);
                assert(on_board(after.walls[j], w.size));
            }
        }
    } else {
        let v = w.velocity;
        assert forall|j: int| 0 <= j < after.walls.len() implies after.walls[j].column != pc && (
        after.row > rest_row() ==> gives_time(#[trigger] after.walls[j], after.velocity)) by {
            lemma_next_walls_from(w.walls, w.size, offset, j);
            if after.walls[j] == entering(w.size, offset) && spawn_due(scrolled(w.walls), w.size)
                && after.row > rest_row() {
                let i0 = choose|i: int|
                    0 <= i < w.walls.len() && (#[trigger] w.walls[i]).column == pc + v - 1;
                if stays(w.walls[i0]) {
                    lemma_scrolled_keeps(w.walls, i0);
                    let k = choose|k: int|
                        0 <= k < scrolled(w.walls).len() && #[trigger] scrolled(w.walls)[k]
                            == shifted(w.walls[i0]);
                    assert(scrolled(w.walls)[k].column + WALL_SPACING < w.size);
                }
            }
        }
        if after.row > rest_row() && after.velocity >= -1 {
            let i0 = choose|i: int|
                0 <= i < w.walls.len() && (#[trigger] w.walls[i]).column == pc + v - 1;
            lemma_next_walls_keeps(w.walls, w.size, offset, i0);
            let j0 = choose|j: int|
                0 <= j < after.walls.len() && #[trigger] after.walls[j] == shifted(w.walls[i0]);
            assert(after.walls[j0].column == pc + after.velocity - 1);
        }
    }
}

} // verus!
