//! What holds of every episode, proved over the model.

use crate::tile::JumpEnvironmentTile;
use crate::world::{
    apart, covers, crashed, entering, grid, initial, offset_allowed, on_board, rest_row, reward,
    scrolled, shifted, spaced, spawn_due, stays, tick, valid, wall_at, Wall, World,
    GROUND_HEIGHT, MIN_SIZE, PLAYER_COLUMN,
};
use vstd::prelude::*;

verus! {

/// Scrolling a list with one more wall at its end.
pub proof fn lemma_scrolled_push(walls: Seq<Wall>, wall: Wall)
    ensures
        scrolled(walls.push(wall)) == if stays(wall) {
            scrolled(walls).push(shifted(wall))
        } else {
            scrolled(walls)
        },
{
    let keep = |w: Wall| stays(w);
    let shift = |w: Wall| shifted(w);
    walls.lemma_filter_push(wall, keep);
    if stays(wall) {
        walls.filter(keep).lemma_push_map_commute(shift, wall);
    }
}

/// Every wall that is left after scrolling is one of the walls before it, one
/// column further left.
pub proof fn lemma_scrolled_from(walls: Seq<Wall>, j: int)
    requires
        0 <= j < scrolled(walls).len(),
    ensures
        exists|i: int|
            0 <= i < walls.len() && stays(#[trigger] walls[i]) && scrolled(walls)[j] == shifted(
                walls[i],
            ),
{
    let keep = |w: Wall| stays(w);
    let kept = walls.filter(keep);
    assert(scrolled(walls)[j] == shifted(kept[j]));
    walls.lemma_filter_pred(keep, j);
    assert(kept.contains(kept[j]));
    walls.lemma_filter_contains_rev(keep, kept[j]);
    let i = choose|i: int| 0 <= i < walls.len() && walls[i] == kept[j];
    assert(stays(walls[i]));
}

/// Every wall that stays on the board is found again after scrolling, one
/// column further left.
pub proof fn lemma_scrolled_keeps(walls: Seq<Wall>, i: int)
    requires
        0 <= i < walls.len(),
        stays(walls[i]),
    ensures
        exists|j: int|
            0 <= j < scrolled(walls).len() && #[trigger] scrolled(walls)[j] == shifted(walls[i]),
{
    let keep = |w: Wall| stays(w);
    let kept = walls.filter(keep);
    walls.lemma_filter_contains(keep, i);
    let j = choose|j: int| 0 <= j < kept.len() && kept[j] == walls[i];
    assert(scrolled(walls)[j] == shifted(kept[j]));
}

/// Scrolling keeps the walls in order and apart.
pub proof fn lemma_scrolled_spaced(walls: Seq<Wall>)
    requires
        spaced(walls),
    ensures
        spaced(scrolled(walls)),
    decreases walls.len(),
{
    if walls.len() == 0 {
        assert(scrolled(walls).len() == 0) by {
            walls.lemma_filter_len(|w: Wall| stays(w));
        }
    } else {
        let front = walls.drop_last();
        let last = walls.last();
        assert(walls =~= front.push(last));
        assert forall|i: int, j: int| 0 <= i < j < front.len() implies #[trigger] apart(
            front[i],
            front[j],
        ) by {
            assert(apart(walls[i], walls[j]));
        }
        lemma_scrolled_spaced(front);
        lemma_scrolled_push(front, last);
        if stays(last) {
            let moved = scrolled(front);
            let all = scrolled(walls);
            assert forall|i: int, j: int| 0 <= i < j < all.len() implies #[trigger] apart(
                all[i],
                all[j],
            ) by {
                if j < moved.len() {
                    assert(apart(moved[i], moved[j]));
                } else {
                    lemma_scrolled_from(front, i);
                    let k = choose|k: int|
                        0 <= k < front.len() && stays(#[trigger] front[k]) && moved[i] == shifted(
                            front[k],
                        );
                    assert(apart(walls[k], walls[walls.len() - 1]));
                }
            }
        }
    }
}

/// An episode begins in a valid world.
pub proof fn lemma_initial_valid(size: nat)
    requires
        MIN_SIZE <= size <= usize::MAX,
    ensures
        valid(initial(size)),
{
}

/// A tick keeps a valid world valid, whatever the action and wherever the
/// wall enters.
pub proof fn lemma_tick_keeps_valid(w: World, action: nat, offset: nat)
    requires
        valid(w),
        offset_allowed(w.size, offset),
    ensures
        valid(tick(w, action, offset)),
{
    let after = tick(w, action, offset);
    let moved = scrolled(w.walls);
    assert forall|j: int| 0 <= j < moved.len() implies on_board(#[trigger] moved[j], w.size) by {
        lemma_scrolled_from(w.walls, j);
    }
    lemma_scrolled_spaced(w.walls);
    if spawn_due(moved, w.size) {
        assert(on_board(entering(w.size, offset), w.size));
        assert forall|i: int, j: int| 0 <= i < j < after.walls.len() implies #[trigger] apart(
            after.walls[i],
            after.walls[j],
        ) by {
            if j < moved.len() {
                assert(apart(moved[i], moved[j]));
            } else {
                assert(after.walls[i] == moved[i]);
            }
        }
    }
}

/// The cell at `column`, `row` of a board of `size` has index
/// `column * size + row`, and that index gives the column and the row back.
pub proof fn lemma_cell_index(size: int, column: int, row: int)
    requires
        0 <= column < size,
        0 <= row < size,
    ensures
        0 <= column * size + row < size * size,
        (column * size + row) / size == column,
        (column * size + row) % size == row,
{
    assert(0 <= column * size + row < size * size) by (nonlinear_arith)
        requires
            0 <= column < size,
            0 <= row < size,
    ;
    vstd::arithmetic::div_mod::lemma_fundamental_div_mod_converse(
        column * size + row,
        size,
        column,
        row,
    );
}

/// The board has `size * size` cells. Exactly one of them shows the player:
/// the one in the player's column at the player's row. In every column the
/// cell at the height of the floor shows the ground.
pub proof fn lemma_board_shape(w: World)
    requires
        valid(w),
    ensures
        grid(w).len() == w.size * w.size,
        forall|i: int|
            0 <= i < grid(w).len() ==> (#[trigger] grid(w)[i] == JumpEnvironmentTile::Player
                <==> i == PLAYER_COLUMN * w.size + w.row),
        0 <= PLAYER_COLUMN * w.size + w.row < grid(w).len(),
        forall|column: int|
            0 <= column < w.size ==> 0 <= column * w.size + GROUND_HEIGHT < grid(w).len()
                && #[trigger] grid(w)[column * w.size + GROUND_HEIGHT]
                == JumpEnvironmentTile::Ground,
{
    let size = w.size as int;
    lemma_cell_index(size, PLAYER_COLUMN as int, w.row as int);
    assert forall|i: int| 0 <= i < grid(w).len() implies (#[trigger] grid(w)[i]
        == JumpEnvironmentTile::Player <==> i == PLAYER_COLUMN * w.size + w.row) by {
        vstd::arithmetic::div_mod::lemma_fundamental_div_mod(i, size);
        assert(size * (i / size) == (i / size) * size) by (nonlinear_arith);
    }
    assert forall|column: int| 0 <= column < w.size implies 0 <= column * w.size + GROUND_HEIGHT
        < grid(w).len() && #[trigger] grid(w)[column * w.size + GROUND_HEIGHT]
        == JumpEnvironmentTile::Ground by {
        lemma_cell_index(size, column, GROUND_HEIGHT as int);
        assert(!wall_at(w.walls, column, GROUND_HEIGHT as int));
    }
}

/// Every frame of a valid world shows the player and shows a wall.
pub proof fn lemma_board_shows_player_and_wall(w: World)
    requires
        valid(w),
    ensures
        exists|i: int|
            0 <= i < grid(w).len() && #[trigger] grid(w)[i] == JumpEnvironmentTile::Player,
        exists|i: int| 0 <= i < grid(w).len() && #[trigger] grid(w)[i] == JumpEnvironmentTile::Wall,
{
    let size = w.size as int;
    lemma_board_shape(w);
    let at = PLAYER_COLUMN * w.size + w.row;
    assert(grid(w)[at] == JumpEnvironmentTile::Player);
    let wall = w.walls[0];
    assert(on_board(wall, w.size));
    let row: int = if wall.column == PLAYER_COLUMN && wall.bottom == w.row {
        wall.bottom + 1
    } else {
        wall.bottom as int
    };
    lemma_cell_index(size, wall.column as int, row);
    let cell = wall.column * size + row;
    assert(covers(w.walls[0], wall.column as int, row));
    assert(wall_at(w.walls, wall.column as int, row));
    assert(grid(w)[cell] == JumpEnvironmentTile::Wall);
}

/// No two walls fill the same cell.
pub proof fn lemma_walls_do_not_overlap(w: World, i: int, j: int, column: int, row: int)
    requires
        valid(w),
        0 <= i < w.walls.len(),
        0 <= j < w.walls.len(),
        covers(w.walls[i], column, row),
        covers(w.walls[j], column, row),
    ensures
        i == j,
{
    if i < j {
        assert(apart(w.walls[i], w.walls[j]));
    } else if j < i {
        assert(apart(w.walls[j], w.walls[i]));
    }
}

/// A player that waits on the floor stays on the floor, at rest.
pub proof fn lemma_waiting_keeps_row(w: World, offset: nat)
    requires
        valid(w),
        w.row == rest_row(),
    ensures
        tick(w, 0, offset).row == w.row,
        tick(w, 0, offset).velocity == 0,
{
}

/// A wall that stands on the floor, one column before the player, ends the
/// episode on the next tick if the player waits on the floor: the world then
/// pays -1.
pub proof fn lemma_waiting_before_wall_crashes(w: World, offset: nat, i: int)
    requires
        valid(w),
        w.row == rest_row(),
        0 <= i < w.walls.len(),
        w.walls[i].column == PLAYER_COLUMN + 1,
        w.walls[i].bottom == rest_row(),
    ensures
        crashed(tick(w, 0, offset)),
        reward(tick(w, 0, offset)) == -1,
{
    let after = tick(w, 0, offset);
    lemma_scrolled_keeps(w.walls, i);
    let j = choose|j: int|
        0 <= j < scrolled(w.walls).len() && #[trigger] scrolled(w.walls)[j] == shifted(w.walls[i]);
    assert(after.walls[j] == shifted(w.walls[i]));
    assert(covers(after.walls[j], PLAYER_COLUMN as int, after.row as int));
}

/// A jump from the floor lifts the player on that very tick.
pub proof fn lemma_jump_rises(w: World, offset: nat)
    requires
        valid(w),
        w.row == rest_row(),
    ensures
        tick(w, 1, offset).row == w.row + 2,
        tick(w, 1, offset).row > w.row,
{
}

/// Five ticks after a jump from the floor the player is back on the floor and
/// at rest, whatever is asked of it while it is in the air and wherever walls
/// enter.
pub proof fn lemma_jump_lands(w: World, actions: Seq<nat>, offsets: Seq<nat>)
    requires
        valid(w),
        w.row == rest_row(),
        actions.len() == 5,
        offsets.len() == 5,
        actions[0] == 1,
    ensures
        ({
            let w1 = tick(w, actions[0], offsets[0]);
            let w2 = tick(w1, actions[1], offsets[1]);
            let w3 = tick(w2, actions[2], offsets[2]);
            let w4 = tick(w3, actions[3], offsets[3]);
            let w5 = tick(w4, actions[4], offsets[4]);
            &&& w1.row > rest_row()
            &&& w2.row > rest_row()
            &&& w3.row > rest_row()
            &&& w4.row > rest_row()
            &&& w5.row == rest_row()
            &&& w5.velocity == 0
        }),
{
}

/// The world pays -1, 0 or 1, and -1 exactly where the player is inside a
/// wall.
pub proof fn lemma_reward_values(w: World)
    ensures
        reward(w) == -1 || reward(w) == 0 || reward(w) == 1,
        reward(w) == -1 <==> crashed(w),
{
}

} // verus!
