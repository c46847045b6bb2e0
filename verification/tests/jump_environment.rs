use rand::Rng;
use rl_environments::jump_environment::JumpEnvironment;
use rl_environments::tile::{PLAYER_TILE, WALL_TILE};

#[test]
fn test_size() {
    let size = 6;
    let env = JumpEnvironment::new(size).unwrap();
    assert_eq!(env.observe().len(), size * size);
}

#[test]
fn test_inaction_kills_player() {
    let mut env = JumpEnvironment::new(6).unwrap();
    assert!(!env.done);
    for _ in 0..6 {
        env.step(0).unwrap();
    }

    assert!(env.done);
}

#[test]
fn test_constant_action_kills_player() {
    let mut env = JumpEnvironment::new(7).unwrap();

    assert!(!env.done);
    for _ in 0..100 {
        env.step(1).unwrap();
    }

    assert!(env.done);
}

#[test]
fn test_action_moves_player() {
    let mut env = JumpEnvironment::new(7).unwrap();
    let player_pos = env
        .observe()
        .iter()
        .position(|tile| tile[PLAYER_TILE] == 1)
        .unwrap();
    env.step(1).unwrap();
    let new_player_pos = env
        .observe()
        .iter()
        .position(|tile| tile[PLAYER_TILE] == 1)
        .unwrap();

    assert_ne!(player_pos, new_player_pos);
}

#[test]
fn test_player_always_exists() {
    let mut env = JumpEnvironment::new(10).unwrap();
    let mut rng = rand::thread_rng();
    for _ in 0..1000 {
        let action = rng.gen_range(0..2);
        env.step(action).unwrap();
        let mut player_exists = false;
        for tile in env.observe().iter() {
            if tile[PLAYER_TILE] == 1 {
                player_exists = true;
                break;
            }
        }

        assert!(player_exists);
    }
}

#[test]
fn test_wall_always_exists() {
    let mut env = JumpEnvironment::new(10).unwrap();
    let mut rng = rand::thread_rng();
    for _ in 0..1000 {
        let action = rng.gen_range(0..2);
        env.step(action).unwrap();
        let mut wall_exists = false;
        for tile in env.observe().iter() {
            if tile[WALL_TILE] == 1 {
                wall_exists = true;
                break;
            }
        }

        assert!(wall_exists);
    }
}

#[test]
fn test_passing_wall_yields_reward() {
    let mut env = JumpEnvironment::new(10).unwrap();
    let mut rewards = 0;
    for i in 0..9 {
        let mut action = 0;
        if i == 6 {
            action = 1;
        }
        rewards += env.step(action).unwrap();
    }

    assert_eq!(rewards, 1);
}

#[test]
fn test_dying_yields_negative_reward() {
    let mut env = JumpEnvironment::new(10).unwrap();
    let mut rewards = 0;
    for _ in 0..8 {
        let reward = env.step(0).unwrap();
        rewards += reward;
    }

    assert_eq!(rewards, -1);
}
