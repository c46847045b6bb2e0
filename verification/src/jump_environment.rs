//! The executable environment: a board, a player, walls, and the tick.

use crate::laws::{lemma_scrolled_push, lemma_tick_keeps_valid};
use crate::random::random_between;
use crate::tile::{one_hot, JumpEnvironmentTile};
use crate::world::{
    apart, covers, crashed, entering, grid, initial, launch_velocity, next_row, next_velocity,
    next_walls, offset_allowed, on_board, rest_row, reward, scrolled, spaced, spawn_due, stays,
    tick, tile_at, valid, wall_at, wall_in_column, walls_below, Wall, World, GROUND_HEIGHT,
    JUMP_IMPULSE, MIN_SIZE, PLAYER_COLUMN, WALL_SPACING,
};
use vstd::prelude::*;

verus! {

/// Why a call was refused.
#[derive(Clone, Copy, Debug, PartialEq, Eq, Structural)]
pub enum JumpError {
    /// The board asked for is too small.
    InvalidConfiguration,
    /// The action is neither 0 (wait) nor 1 (jump).
    InvalidAction,
}

/// One episode of the jump world.
#[derive(Clone, Debug)]
pub struct JumpEnvironment {
    /// The board has `size` columns and `size` rows.
    pub size: usize,
    /// The walls on the board, those that entered first in front.
    pub walls: Vec<Wall>,
    /// Whether the episode has ended. Once it has, a step changes nothing.
    pub done: bool,
    /// Row of the player; its column is `PLAYER_COLUMN`.
    pub player_row: usize,
    /// Vertical speed of the player, upwards positive.
    pub player_vel: i8,
}

impl View for JumpEnvironment {
    type V = World;

    open spec fn view(&self) -> World {
        World {
            size: self.size as nat,
            row: self.player_row as nat,
            velocity: self.player_vel as int,
            walls: self.walls@,
        }
    }
}

/// Whether `rightmost` is the largest column among `walls`: `None` where
/// there is no wall.
spec fn is_rightmost(walls: Seq<Wall>, rightmost: Option<usize>) -> bool {
    match rightmost {
        None => walls.len() == 0,
        Some(column) => {
            &&& wall_in_column(walls, column as int)
            &&& forall|i: int| 0 <= i < walls.len() ==> (#[trigger] walls[i]).column <= column
        },
    }
}

/// Whether some wall of `walls` fills the cell at `column`, `row`.
fn wall_covers_cell(walls: &Vec<Wall>, column: usize, row: usize) -> (found: bool)
    ensures
        found == wall_at(walls@, column as int, row as int),
{
    let mut i: usize = 0;
    while i < walls.len()
        invariant
            i <= walls.len(),
            forall|j: int| 0 <= j < i ==> !covers(#[trigger] walls@[j], column as int, row as int),
        decreases walls.len() - i,
    {
        let wall = walls[i];
        if wall.column == column && (wall.bottom == row || (wall.bottom < row && wall.bottom + 1
            == row)) {
            return true;
        }
        i += 1;
    }
    false
}

impl JumpEnvironment {
    /// What every environment satisfies from its construction on: the world
    /// is valid, and the episode has ended exactly if the player is inside a
    /// wall.
    pub open spec fn wf(&self) -> bool {
        &&& valid(self@)
        &&& self.done == crashed(self@)
    }

    /// Tests whether the environment is well formed. One made by `new` and
    /// changed only by steps always is; one whose fields were set by hand may
    /// not be.
    pub fn is_wf(&self) -> (ok: bool)
        ensures
            ok == self.wf(),
    {
        if self.size < MIN_SIZE || self.player_row <= GROUND_HEIGHT || self.player_row
            >= self.size {
            return false;
        }
        let height = self.player_row - (GROUND_HEIGHT + 1);
        let vel = self.player_vel;
        if vel < -2 || vel > 1 || (height == 0 && vel != 0) || height > 3 || (height == 3 && (vel
            == 1 || vel == -2)) {
            return false;
        }
        if self.walls.len() == 0 {
            return false;
        }
        let mut i: usize = 0;
        while i < self.walls.len()
            invariant
                i <= self.walls.len(),
                forall|j: int| 0 <= j < i ==> on_board(#[trigger] self.walls@[j], self.size as nat),
                spaced(self.walls@.take(i as int)),
            decreases self.walls.len() - i,
        {
            let wall = self.walls[i];
            if wall.column >= self.size || wall.bottom <= GROUND_HEIGHT || wall.bottom >= self.size
                - 1 {
                assert(!on_board(self.walls@[i as int], self.size as nat));
                return false;
            }
            if i > 0 {
                let before = self.walls[i - 1];
                if wall.column < WALL_SPACING || wall.column - WALL_SPACING < before.column {
                    assert(!apart(self.walls@[i - 1], self.walls@[i as int]));
                    return false;
                }
            }
            proof {
                let seen = self.walls@.take(i as int);
                let more = self.walls@.take(i + 1);
                assert forall|a: int, b: int| 0 <= a < b < more.len() implies #[trigger] apart(
                    more[a],
                    more[b],
                ) by {
                    if b < i {
                        assert(apart(seen[a], seen[b]));
                    } else if a < i - 1 {
                        assert(apart(seen[a], seen[i - 1]));
                    }
                }
            }
            i += 1;
        }
        assert(self.walls@.take(i as int) =~= self.walls@);
        self.done == wall_covers_cell(&self.walls, PLAYER_COLUMN, self.player_row)
    }

    /// Begins an episode on a board of `size` columns and rows. A board
    /// smaller than `MIN_SIZE` is refused.
    pub fn new(size: usize) -> (made: Result<Self, JumpError>)
        ensures
            size < MIN_SIZE ==> made == Err::<Self, JumpError>(JumpError::InvalidConfiguration),
            size >= MIN_SIZE ==> made is Ok && made->Ok_0@ == initial(size as nat)
                && !made->Ok_0.done && made->Ok_0.wf(),
    {
        if size < MIN_SIZE {
            return Err(JumpError::InvalidConfiguration);
        }
        let first = Wall { column: size - 1, bottom: GROUND_HEIGHT + 1 };
        let mut walls: Vec<Wall> = Vec::new();
        walls.push(first);
        let env = JumpEnvironment {
            size,
            walls,
            done: false,
            player_row: GROUND_HEIGHT + 1,
            player_vel: 0,
        };
        assert(env@.walls =~= initial(size as nat).walls);
        Ok(env)
    }

    /// Adds the wall that enters at `offset` above the floor.
    fn add_wall(&mut self, offset: usize)
        requires
            offset_allowed(old(self)@.size, offset as nat),
        ensures
            final(self)@.walls == old(self)@.walls.push(entering(old(self)@.size, offset as nat)),
            final(self).size == old(self).size,
            final(self).done == old(self).done,
            final(self).player_row == old(self).player_row,
            final(self).player_vel == old(self).player_vel,
    {
        let wall = Wall { column: self.size - 1, bottom: GROUND_HEIGHT + offset };
        self.walls.push(wall);
    }

    /// Lets a wall enter at `offset` where one is due: where no wall is left,
    /// or the rightmost is far enough from the right edge.
    fn spawn_walls(&mut self, max_wall: Option<usize>, offset: usize)
        requires
            offset_allowed(old(self)@.size, offset as nat),
            is_rightmost(old(self)@.walls, max_wall),
        ensures
            final(self)@.walls == if spawn_due(old(self)@.walls, old(self)@.size) {
                old(self)@.walls.push(entering(old(self)@.size, offset as nat))
            } else {
                old(self)@.walls
            },
            final(self).size == old(self).size,
            final(self).done == old(self).done,
            final(self).player_row == old(self).player_row,
            final(self).player_vel == old(self).player_vel,
    {
        if let Some(wall) = max_wall {
            if wall < self.size - WALL_SPACING {
                self.add_wall(offset);
            }
        } else {
            self.add_wall(offset)
        }
    }

    /// Scrolls the walls one column to the left, drops those that leave the
    /// board, and lets a wall enter at `offset` where one is due.
    fn update_walls(&mut self, offset: usize)
        requires
            offset_allowed(old(self)@.size, offset as nat),
        ensures
            final(self)@.walls == next_walls(old(self)@.walls, old(self)@.size, offset as nat),
            final(self).size == old(self).size,
            final(self).done == old(self).done,
            final(self).player_row == old(self).player_row,
            final(self).player_vel == old(self).player_vel,
    {
        let mut new_walls: Vec<Wall> = Vec::with_capacity(self.walls.len());
        let mut max_wall: Option<usize> = None;
        let mut i: usize = 0;
        while i < self.walls.len()
            invariant
                i <= self.walls.len(),
                new_walls@ == scrolled(self.walls@.take(i as int)),
                is_rightmost(new_walls@, max_wall),
            decreases self.walls.len() - i,
        {
            let wall = self.walls[i];
            proof {
                lemma_scrolled_push(self.walls@.take(i as int), wall);
                assert(self.walls@.take(i + 1) =~= self.walls@.take(i as int).push(wall));
            }
            if wall.column > 0 {
                let new_wall = Wall { column: wall.column - 1, bottom: wall.bottom };
                let ghost before = new_walls@;
                new_walls.push(new_wall);
                let new_x = new_wall.column;
                if let Some(rightmost) = max_wall {
                    if new_x > rightmost {
                        max_wall = Some(new_x);
                    }
                } else {
                    max_wall = Some(new_x);
                }
                proof {
                    let last = before.len() as int;
                    if max_wall == Some(new_x) {
                        assert(new_walls@[last].column == new_x);
                    } else {
                        let k = choose|k: int|
                            0 <= k < before.len() && (#[trigger] before[k]).column
                                == max_wall->Some_0;
                        assert(new_walls@[k].column == max_wall->Some_0);
                    }
                }
            }
            i += 1;
        }
        assert(self.walls@.take(i as int) =~= self.walls@);
        self.walls = new_walls;
        self.spawn_walls(max_wall, offset);
    }

    /// Applies the action: a jump asked for on the floor sets the speed to the
    /// impulse, anything else leaves it.
    fn apply_action(&mut self, action: usize)
        requires
            action <= 1,
        ensures
            final(self)@.velocity == launch_velocity(
                old(self)@.row,
                old(self)@.velocity,
                action as nat,
            ),
            final(self).size == old(self).size,
            final(self).walls == old(self).walls,
            final(self).done == old(self).done,
            final(self).player_row == old(self).player_row,
    {
        if action == 1 {
            if self.player_row == GROUND_HEIGHT + 1 {
                self.player_vel = JUMP_IMPULSE;
            }
        }
    }

    /// Moves the player by its speed, between the floor and the top row, and
    /// lets gravity act on the speed.
    fn update_player(&mut self)
        requires
            rest_row() <= old(self)@.row < old(self)@.size,
            -2 <= old(self)@.velocity <= 2,
        ensures
            final(self)@.row == next_row(old(self)@.row, old(self)@.velocity, old(self)@.size),
            final(self)@.velocity == next_velocity(final(self)@.row, old(self)@.velocity),
            final(self).size == old(self).size,
            final(self).walls == old(self).walls,
            final(self).done == old(self).done,
    {
        let floor: usize = GROUND_HEIGHT + 1;
        let row = self.player_row;
        let vel = self.player_vel;
        let new_row: usize = if vel >= 0 {
            let rise = vel as usize;
            let headroom = self.size - 1 - row;
            if rise > headroom {
                self.size - 1
            } else {
                row + rise
            }
        } else {
            let fall = (-vel) as usize;
            let height = row - floor;
            if fall > height {
                floor
            } else {
                row - fall
            }
        };
        self.player_row = new_row;
        self.player_vel = if new_row == floor {
            0
        } else {
            vel - 1
        };
    }

    /// Ends the episode where the player is inside a wall.
    fn check_done(&mut self)
        ensures
            final(self).done == (old(self).done || crashed(old(self)@)),
            final(self).size == old(self).size,
            final(self).walls == old(self).walls,
            final(self).player_row == old(self).player_row,
            final(self).player_vel == old(self).player_vel,
    {
        if !self.done {
            if wall_covers_cell(&self.walls, PLAYER_COLUMN, self.player_row) {
                self.done = true;
            }
        }
    }

    /// What the world pays as it stands: -1 where the player is inside a
    /// wall, 1 where it is over one, else 0.
    fn calculate_reward(&self) -> (paid: i8)
        ensures
            paid == reward(self@),
    {
        let mut on_player_col = false;
        let mut all_below = true;
        let mut hit = false;
        let mut i: usize = 0;
        while i < self.walls.len()
            invariant
                i <= self.walls.len(),
                on_player_col == wall_in_column(self.walls@.take(i as int), PLAYER_COLUMN as int),
                all_below == walls_below(
                    self.walls@.take(i as int),
                    PLAYER_COLUMN as int,
                    self.player_row as int,
                ),
                hit == wall_at(
                    self.walls@.take(i as int),
                    PLAYER_COLUMN as int,
                    self.player_row as int,
                ),
            decreases self.walls.len() - i,
        {
            let wall = self.walls[i];
            let ghost seen = self.walls@.take(i as int);
            let ghost more = self.walls@.take(i + 1);
            proof {
                assert(more =~= seen.push(wall));
                assert(forall|j: int| 0 <= j < seen.len() ==> more[j] == seen[j]);
                assert(more[i as int] == wall);
                if wall_in_column(seen, PLAYER_COLUMN as int) {
                    let k = choose|k: int|
                        0 <= k < seen.len() && (#[trigger] seen[k]).column == PLAYER_COLUMN;
                    assert(more[k].column == PLAYER_COLUMN);
                }
                if wall_at(seen, PLAYER_COLUMN as int, self.player_row as int) {
                    let k = choose|k: int|
                        0 <= k < seen.len() && covers(
                            #[trigger] seen[k],
                            PLAYER_COLUMN as int,
                            self.player_row as int,
                        );
                    assert(covers(more[k], PLAYER_COLUMN as int, self.player_row as int));
                }
            }
            if wall.column == PLAYER_COLUMN {
                on_player_col = true;
                if wall.bottom == self.player_row || (wall.bottom < self.player_row && wall.bottom
                    + 1 == self.player_row) {
                    hit = true;
                }
                if !(wall.bottom < self.player_row && wall.bottom + 1 < self.player_row) {
                    all_below = false;
                }
            }
            i += 1;
        }
        assert(self.walls@.take(i as int) =~= self.walls@);
        let passed_wall = on_player_col && all_below;
        if hit {
            -1
        } else if passed_wall {
            1
        } else {
            0
        }
    }

    /// Advances the world by one tick, with the wall that may enter placed
    /// at `offset` above the floor.
    ///
    /// An action other than 0 or 1 is refused, and an episode that has ended
    /// stays as it is and pays nothing. Otherwise the walls scroll, the
    /// action is applied, the player moves, and the episode ends where the
    /// player is then inside a wall.
    pub fn step_with(&mut self, action: usize, offset: usize) -> (paid: Result<i8, JumpError>)
        requires
            old(self).wf(),
            offset_allowed(old(self)@.size, offset as nat),
        ensures
            final(self).wf(),
            action > 1 ==> paid == Err::<i8, JumpError>(JumpError::InvalidAction) && *final(self)
                == *old(self),
            action <= 1 && old(self).done ==> paid == Ok::<i8, JumpError>(0) && *final(self)
                == *old(self),
            action <= 1 && !old(self).done ==> {
                &&& final(self)@ == tick(old(self)@, action as nat, offset as nat)
                &&& final(self).done == crashed(final(self)@)
                &&& paid is Ok
                &&& paid->Ok_0 == reward(final(self)@)
            },
    {
        if action > 1 {
            return Err(JumpError::InvalidAction);
        }
        if self.done {
            return Ok(0);
        }
        self.update_walls(offset);
        self.apply_action(action);
        self.update_player();
        self.check_done();
        proof {
            lemma_tick_keeps_valid(old(self)@, action as nat, offset as nat);
        }
        Ok(self.calculate_reward())
    }

    /// Advances the world by one tick, with the wall that may enter placed
    /// at random.
    ///
    /// It does what `step_with` does, for an offset drawn from those that a
    /// wall may have.
    pub fn step(&mut self, action: usize) -> (paid: Result<i8, JumpError>)
        requires
            old(self).wf(),
        ensures
            final(self).wf(),
            action > 1 ==> paid == Err::<i8, JumpError>(JumpError::InvalidAction) && *final(self)
                == *old(self),
            action <= 1 && old(self).done ==> paid == Ok::<i8, JumpError>(0) && *final(self)
                == *old(self),
            action <= 1 && !old(self).done ==> {
                &&& exists|offset: nat|
                    offset_allowed(old(self)@.size, offset) && final(self)@ == #[trigger] tick(
                        old(self)@,
                        action as nat,
                        offset,
                    )
                &&& final(self).done == crashed(final(self)@)
                &&& paid is Ok
                &&& paid->Ok_0 == reward(final(self)@)
            },
    {
        let offset = random_between(1, self.size - 3);
        let ghost before = self@;
        let paid = self.step_with(action, offset);
        proof {
            if action <= 1 && !old(self).done {
                assert(offset_allowed(before.size, offset as nat) && self@ == tick(
                    before,
                    action as nat,
                    offset as nat,
                ));
            }
        }
        paid
    }

    /// What the cell at `column`, `row` shows.
    pub fn tile(&self, column: usize, row: usize) -> (tile: JumpEnvironmentTile)
        ensures
            tile == tile_at(self@, column as int, row as int),
    {
        if column == PLAYER_COLUMN && row == self.player_row {
            JumpEnvironmentTile::Player
        } else if wall_covers_cell(&self.walls, column, row) {
            JumpEnvironmentTile::Wall
        } else if row == GROUND_HEIGHT {
            JumpEnvironmentTile::Ground
        } else {
            JumpEnvironmentTile::Empty
        }
    }

    /// Builds the board cell by cell, column after column.
    fn generate_state(&self) -> (state: Vec<[u8; 3]>)
        requires
            self.size * self.size <= usize::MAX,
        ensures
            state@.len() == grid(self@).len(),
            forall|i: int|
                0 <= i < state@.len() ==> (#[trigger] state@[i])@ == one_hot(grid(self@)[i]),
    {
        let size = self.size;
        let cells = size * size;
        let mut state: Vec<[u8; 3]> = Vec::with_capacity(cells);
        let mut i: usize = 0;
        while i < cells
            invariant
                i <= cells,
                cells == size * size,
                size == self.size,
                state@.len() == i,
                forall|j: int|
                    0 <= j < i ==> (#[trigger] state@[j])@ == one_hot(
                        tile_at(self@, j / (size as int), j % (size as int)),
                    ),
            decreases cells - i,
        {
            assert(size > 0) by (nonlinear_arith)
                requires
                    i < size * size,
            ;
            let tile = self.tile(i / size, i % size);
            state.push(tile.into_bits());
            i += 1;
        }
        state
    }

    /// The board as it stands: for each cell, column after column from the
    /// left and each column from its lowest row up, the three flags of what
    /// the cell shows. Calling it changes nothing.
    pub fn observe(&self) -> (state: Vec<[u8; 3]>)
        requires
            self@.size * self@.size <= usize::MAX,
        ensures
            state@.len() == self@.size * self@.size,
            forall|i: int|
                0 <= i < state@.len() ==> (#[trigger] state@[i])@ == one_hot(grid(self@)[i]),
    {
        self.generate_state()
    }
}

} // verus!
