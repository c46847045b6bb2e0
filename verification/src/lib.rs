//! A small grid world for reinforcement learning: a player jumps over walls
//! that scroll towards it, one column per tick.
//!
//! The executable environment is `jump_environment::JumpEnvironment`. What it
//! does is stated over the mathematical model in `world`; `laws` and
//! `survival` prove what holds of every episode.

pub mod jump_environment;
pub mod laws;
pub mod random;
pub mod render;
pub mod survival;
pub mod tile;
pub mod world;
