use rl_environments::jump_environment::{JumpEnvironment, JumpError};
use rl_environments::tile::{JumpEnvironmentTile, GROUND_TILE, PLAYER_TILE, WALL_TILE};
use rl_environments::world::{Wall, GROUND_HEIGHT, PLAYER_COLUMN};

fn count_flag(env: &JumpEnvironment, flag: usize) -> usize {
    env.observe().iter().filter(|cell| cell[flag] == 1).count()
}

fn player_row(env: &JumpEnvironment) -> usize {
    let at = env
        .observe()
        .iter()
        .position(|cell| cell[PLAYER_TILE] == 1)
        .unwrap();
    assert_eq!(at / env.size, PLAYER_COLUMN);
    at % env.size
}

#[test]
fn small_boards_are_refused() {
    for size in 0..=5 {
        assert_eq!(
            JumpEnvironment::new(size).err(),
            Some(JumpError::InvalidConfiguration)
        );
    }
    assert!(JumpEnvironment::new(6).is_ok());
}

#[test]
fn new_board_is_as_described() {
    let env = JumpEnvironment::new(8).unwrap();
    assert!(env.is_wf());
    assert!(!env.done);
    assert_eq!(env.size, 8);
    assert_eq!(env.player_row, 3);
    assert_eq!(env.player_vel, 0);
    assert_eq!(env.walls, vec![Wall { column: 7, bottom: 3 }]);
    let state = env.observe();
    assert_eq!(state.len(), 64);
    for column in 0..8 {
        for row in 0..8 {
            let expected: [u8; 3] = if column == 2 && row == 3 {
                [0, 1, 0]
            } else if column == 7 && (row == 3 || row == 4) {
                [0, 0, 1]
            } else if row == 2 {
                [1, 0, 0]
            } else {
                [0, 0, 0]
            };
            assert_eq!(state[column * 8 + row], expected);
        }
    }
}

#[test]
fn every_frame_has_one_player_and_a_floor() {
    let mut env = JumpEnvironment::new(9).unwrap();
    for tick in 0..40 {
        assert_eq!(count_flag(&env, PLAYER_TILE), 1);
        assert!(count_flag(&env, WALL_TILE) >= 1);
        let state = env.observe();
        assert_eq!(state.len(), 81);
        for column in 0..9 {
            assert_eq!(state[column * 9 + GROUND_HEIGHT], [1, 0, 0]);
        }
        assert_eq!(count_flag(&env, GROUND_TILE), 9);
        env.step_with(if tick % 5 == 1 { 1 } else { 0 }, 1 + tick % 5).unwrap();
    }
}

#[test]
fn unknown_action_is_refused_and_changes_nothing() {
    let mut env = JumpEnvironment::new(7).unwrap();
    env.step(1).unwrap();
    let before = env.clone();
    for action in [2usize, 3, 17, usize::MAX] {
        assert_eq!(env.step(action), Err(JumpError::InvalidAction));
        assert_eq!(env.step_with(action, 1), Err(JumpError::InvalidAction));
        assert_eq!(env.size, before.size);
        assert_eq!(env.walls, before.walls);
        assert_eq!(env.done, before.done);
        assert_eq!(env.player_row, before.player_row);
        assert_eq!(env.player_vel, before.player_vel);
        assert_eq!(env.observe(), before.observe());
    }
}

#[test]
fn waiting_player_keeps_its_row_until_the_wall_arrives() {
    let mut env = JumpEnvironment::new(9).unwrap();
    for _ in 0..5 {
        assert_eq!(env.step_with(0, 1), Ok(0));
        assert_eq!(player_row(&env), 3);
        assert_eq!(env.player_vel, 0);
        assert!(!env.done);
    }
    assert_eq!(env.walls[0], Wall { column: 3, bottom: 3 });
    assert_eq!(env.step_with(0, 1), Ok(-1));
    assert!(env.done);
    assert_eq!(player_row(&env), 3);
}

#[test]
fn finished_episode_stays_finished() {
    let mut env = JumpEnvironment::new(6).unwrap();
    assert_eq!(env.step(0), Ok(0));
    assert_eq!(env.step(0), Ok(0));
    assert_eq!(env.step(0), Ok(-1));
    assert!(env.done);
    let frozen = env.clone();
    for action in [0usize, 1, 1, 0, 1] {
        assert_eq!(env.step(action), Ok(0));
        assert!(env.done);
        assert_eq!(env.walls, frozen.walls);
        assert_eq!(env.player_row, frozen.player_row);
        assert_eq!(env.player_vel, frozen.player_vel);
        assert_eq!(env.observe(), frozen.observe());
    }
    assert_eq!(env.step_with(1, 2), Ok(0));
    assert_eq!(env.observe(), frozen.observe());
}

#[test]
fn crashed_player_hides_the_wall_cell_it_is_in() {
    let mut env = JumpEnvironment::new(6).unwrap();
    for _ in 0..3 {
        env.step_with(0, 1).unwrap();
    }
    assert!(env.done);
    let state = env.observe();
    assert_eq!(state[2 * 6 + 3], [0, 1, 0]);
    assert_eq!(state[2 * 6 + 4], [0, 0, 1]);
    assert_eq!(env.tile(2, 3), JumpEnvironmentTile::Player);
    assert_eq!(env.tile(2, 4), JumpEnvironmentTile::Wall);
}

#[test]
fn jump_rises_and_lands_after_five_ticks() {
    let mut env = JumpEnvironment::new(20).unwrap();
    let mut rows = vec![];
    let mut speeds = vec![];
    env.step_with(1, 1).unwrap();
    rows.push(env.player_row);
    speeds.push(env.player_vel);
    for _ in 0..5 {
        env.step_with(0, 1).unwrap();
        rows.push(env.player_row);
        speeds.push(env.player_vel);
    }
    assert_eq!(rows, vec![5, 6, 6, 5, 3, 3]);
    assert_eq!(speeds, vec![1, 0, -1, -2, 0, 0]);
}

#[test]
fn jump_in_the_air_does_nothing() {
    let mut env = JumpEnvironment::new(20).unwrap();
    let mut rows = vec![];
    for _ in 0..5 {
        env.step_with(1, 1).unwrap();
        rows.push(env.player_row);
    }
    assert_eq!(rows, vec![5, 6, 6, 5, 3]);
    assert_eq!(env.player_vel, 0);
    env.step_with(1, 1).unwrap();
    assert_eq!(env.player_row, 5);
    assert_eq!(env.player_vel, 1);
}

#[test]
fn jump_is_stopped_by_the_top_row() {
    let mut env = JumpEnvironment {
        size: 6,
        walls: vec![Wall { column: 5, bottom: 3 }],
        done: false,
        player_row: 3,
        player_vel: 0,
    };
    assert!(env.is_wf());
    let mut rows = vec![];
    let mut speeds = vec![];
    env.step_with(1, 1).unwrap();
    rows.push(env.player_row);
    speeds.push(env.player_vel);
    env.walls = vec![Wall { column: 5, bottom: 3 }];
    env.done = false;
    for _ in 0..4 {
        env.step_with(0, 1).unwrap();
        rows.push(env.player_row);
        speeds.push(env.player_vel);
        env.walls = vec![Wall { column: 5, bottom: 3 }];
        env.done = false;
    }
    assert_eq!(rows, vec![5, 5, 5, 4, 3]);
    assert_eq!(speeds, vec![1, 0, -1, -2, 0]);
}

#[test]
fn walls_scroll_leave_and_enter() {
    let mut env = JumpEnvironment::new(8).unwrap();
    env.step_with(0, 4).unwrap();
    assert_eq!(env.walls, vec![Wall { column: 6, bottom: 3 }]);
    env.step_with(0, 4).unwrap();
    env.step_with(0, 4).unwrap();
    env.step_with(1, 4).unwrap();
    assert_eq!(env.walls, vec![Wall { column: 3, bottom: 3 }]);
    // the rightmost wall reaches column 2, and 2 + 5 < 8: a wall enters
    assert_eq!(env.step_with(0, 4), Ok(1));
    assert_eq!(
        env.walls,
        vec![Wall { column: 2, bottom: 3 }, Wall { column: 7, bottom: 6 }]
    );
    env.step_with(0, 1).unwrap();
    env.step_with(0, 1).unwrap();
    assert_eq!(
        env.walls,
        vec![Wall { column: 0, bottom: 3 }, Wall { column: 5, bottom: 6 }]
    );
    env.step_with(0, 1).unwrap();
    assert_eq!(env.walls, vec![Wall { column: 4, bottom: 6 }]);
    assert_eq!(count_flag(&env, WALL_TILE), 2);
}

#[test]
fn wall_enters_when_none_is_left() {
    let mut env = JumpEnvironment {
        size: 7,
        walls: vec![Wall { column: 0, bottom: 4 }],
        done: false,
        player_row: 3,
        player_vel: 0,
    };
    assert!(env.is_wf());
    assert_eq!(env.step_with(0, 3), Ok(0));
    assert_eq!(env.walls, vec![Wall { column: 6, bottom: 5 }]);
}

#[test]
fn reward_is_one_only_over_the_wall() {
    // over the wall
    let mut env = JumpEnvironment {
        size: 10,
        walls: vec![Wall { column: 3, bottom: 3 }],
        done: false,
        player_row: 3,
        player_vel: 0,
    };
    assert_eq!(env.step_with(1, 1), Ok(1));
    assert!(!env.done);
    // under a wall that floats
    let mut env = JumpEnvironment {
        size: 10,
        walls: vec![Wall { column: 3, bottom: 4 }],
        done: false,
        player_row: 3,
        player_vel: 0,
    };
    assert_eq!(env.step_with(0, 1), Ok(0));
    assert!(!env.done);
    // into the lower cell of a wall that floats
    let mut env = JumpEnvironment {
        size: 10,
        walls: vec![Wall { column: 3, bottom: 5 }],
        done: false,
        player_row: 3,
        player_vel: 0,
    };
    assert_eq!(env.step_with(1, 1), Ok(-1));
    assert!(env.done);
    // into the upper cell
    let mut env = JumpEnvironment {
        size: 10,
        walls: vec![Wall { column: 3, bottom: 4 }],
        done: false,
        player_row: 3,
        player_vel: 0,
    };
    assert_eq!(env.step_with(1, 1), Ok(-1));
    assert!(env.done);
    // no wall in the column
    let mut env = JumpEnvironment {
        size: 10,
        walls: vec![Wall { column: 4, bottom: 3 }],
        done: false,
        player_row: 3,
        player_vel: 0,
    };
    assert_eq!(env.step_with(1, 1), Ok(0));
    assert!(!env.done);
}

#[test]
fn never_jumping_on_seven_ends_with_minus_one() {
    let mut env = JumpEnvironment::new(7).unwrap();
    let mut total = 0;
    let mut ended_at = None;
    for tick in 1..=7 {
        total += env.step(0).unwrap();
        if env.done && ended_at.is_none() {
            ended_at = Some(tick);
        }
    }
    assert!(env.done);
    assert_eq!(ended_at, Some(4));
    assert_eq!(total, -1);
}

#[test]
fn random_walls_stay_on_the_board_and_vary() {
    let mut bottoms = vec![];
    for _ in 0..200 {
        let mut env = JumpEnvironment::new(10).unwrap();
        for _ in 0..6 {
            env.step(0).unwrap();
            assert!(env.is_wf());
        }
        // the wall that entered on the fifth tick
        assert_eq!(env.walls.len(), 2);
        let entered = env.walls[1];
        assert_eq!(entered.column, 8);
        assert!(entered.bottom >= 3 && entered.bottom + 1 <= 9);
        bottoms.push(entered.bottom);
    }
    assert!(bottoms.iter().any(|bottom| *bottom != bottoms[0]));
    assert!(bottoms.iter().any(|bottom| *bottom != 3));
    assert!(bottoms.iter().all(|bottom| *bottom != 9));
}

#[test]
fn is_wf_tells_broken_states() {
    let good = JumpEnvironment::new(7).unwrap();
    assert!(good.is_wf());
    let mut env = good.clone();
    env.size = 5;
    assert!(!env.is_wf());
    let mut env = good.clone();
    env.player_row = 2;
    assert!(!env.is_wf());
    let mut env = good.clone();
    env.player_row = 7;
    assert!(!env.is_wf());
    let mut env = good.clone();
    env.player_vel = 1;
    assert!(!env.is_wf());
    let mut env = good.clone();
    env.player_row = 6;
    env.player_vel = -2;
    assert!(!env.is_wf());
    let mut env = good.clone();
    env.walls.clear();
    assert!(!env.is_wf());
    let mut env = good.clone();
    env.walls.push(Wall { column: 3, bottom: 6 });
    assert!(!env.is_wf());
    let mut env = good.clone();
    env.walls.push(Wall { column: 7, bottom: 3 });
    assert!(!env.is_wf());
    let mut env = good.clone();
    env.walls.push(Wall { column: 3, bottom: 2 });
    assert!(!env.is_wf());
}

#[test]
fn tiles_encode_and_decode() {
    assert_eq!(JumpEnvironmentTile::Empty.into_bits(), [0, 0, 0]);
    assert_eq!(JumpEnvironmentTile::Ground.into_bits(), [1, 0, 0]);
    assert_eq!(JumpEnvironmentTile::Player.into_bits(), [0, 1, 0]);
    assert_eq!(JumpEnvironmentTile::Wall.into_bits(), [0, 0, 1]);
    for tile in [
        JumpEnvironmentTile::Empty,
        JumpEnvironmentTile::Ground,
        JumpEnvironmentTile::Player,
        JumpEnvironmentTile::Wall,
    ] {
        assert_eq!(JumpEnvironmentTile::from_bits(&tile.into_bits()), tile);
    }
    assert_eq!(JumpEnvironmentTile::from_bits(&[1, 1, 1]), JumpEnvironmentTile::Player);
    assert_eq!(JumpEnvironmentTile::from_bits(&[1, 0, 1]), JumpEnvironmentTile::Wall);
    assert_eq!(JumpEnvironmentTile::from_bits(&[2, 0, 0]), JumpEnvironmentTile::Empty);
}

#[test]
fn board_is_drawn_top_row_first() {
    let mut env = JumpEnvironment::new(6).unwrap();
    let blank = "      ";
    assert_eq!(
        env.render(),
        [blank, "     |", "  O  |", "######", blank, blank].join("\n")
    );
    env.step_with(1, 1).unwrap();
    assert_eq!(
        env.render(),
        ["  o   ", "    | ", "    | ", "######", blank, blank].join("\n")
    );
    env.step_with(0, 1).unwrap();
    env.step_with(0, 1).unwrap();
    assert_eq!(
        env.render(),
        ["  o   ", "  |   ", "  |   ", "######", blank, blank].join("\n")
    );
    let mut env = JumpEnvironment::new(6).unwrap();
    for _ in 0..3 {
        env.step_with(0, 1).unwrap();
    }
    assert_eq!(
        env.render(),
        [blank, "  |   ", "  x   ", "######", blank, blank].join("\n")
    );
}

#[test]
fn careful_player_is_never_caught() {
    for size in 6..14 {
        let mut env = JumpEnvironment::new(size).unwrap();
        let mut total: i32 = 0;
        let mut jumped_over = 0;
        for _ in 0..3000 {
            let on_floor = env.player_row == GROUND_HEIGHT + 1;
            let wall_ahead = env
                .walls
                .iter()
                .any(|wall| wall.column == PLAYER_COLUMN + 1 && wall.bottom == GROUND_HEIGHT + 1);
            let action = if on_floor && wall_ahead { 1 } else { 0 };
            let paid = env.step(action).unwrap();
            assert!(paid == 0 || paid == 1);
            assert!(!env.done);
            assert!(env.is_wf());
            if action == 1 {
                assert_eq!(paid, 1);
                jumped_over += 1;
            }
            total += i32::from(paid);
        }
        assert_eq!(total, jumped_over);
        assert!(jumped_over >= 1);
    }
}

#[test]
fn observed_cells_decode_to_the_tiles() {
    let mut env = JumpEnvironment::new(7).unwrap();
    for tick in 0..12 {
        let state = env.observe();
        assert_eq!(state.len(), 49);
        for (i, cell) in state.iter().enumerate() {
            let tile = env.tile(i / 7, i % 7);
            assert_eq!(JumpEnvironmentTile::from_bits(cell), tile);
            assert_eq!(*cell, tile.into_bits());
        }
        env.step_with(if tick == 3 { 1 } else { 0 }, 2).unwrap();
    }
    assert!(!env.done);
}
