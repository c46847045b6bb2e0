//! The four things a cell of the board can show, and their one-hot encoding.

use vstd::prelude::*;

verus! {

/// Index of the ground flag in an encoded cell.
pub const GROUND_TILE: usize = 0;

/// Index of the player flag in an encoded cell.
pub const PLAYER_TILE: usize = 1;

/// Index of the wall flag in an encoded cell.
pub const WALL_TILE: usize = 2;

/// What a cell of the board shows.
#[derive(Clone, Copy, Debug, PartialEq, Eq, Structural)]
pub enum JumpEnvironmentTile {
    Empty,
    Ground,
    Player,
    Wall,
}

/// The three flags (ground, player, wall) that encode a tile: at most one is set.
pub open spec fn one_hot(tile: JumpEnvironmentTile) -> Seq<u8> {
    match tile {
        JumpEnvironmentTile::Empty => seq![0u8, 0u8, 0u8],
        JumpEnvironmentTile::Ground => seq![1u8, 0u8, 0u8],
        JumpEnvironmentTile::Player => seq![0u8, 1u8, 0u8],
        JumpEnvironmentTile::Wall => seq![0u8, 0u8, 1u8],
    }
}

/// The tile that three flags stand for. Where several are set, the player
/// hides a wall and a wall hides the ground.
pub open spec fn tile_of(bits: Seq<u8>) -> JumpEnvironmentTile
    recommends
        bits.len() == 3,
{
    if bits[PLAYER_TILE as int] == 1 {
        JumpEnvironmentTile::Player
    } else if bits[WALL_TILE as int] == 1 {
        JumpEnvironmentTile::Wall
    } else if bits[GROUND_TILE as int] == 1 {
        JumpEnvironmentTile::Ground
    } else {
        JumpEnvironmentTile::Empty
    }
}

impl JumpEnvironmentTile {
    /// Encodes the tile as three flags.
    pub fn into_bits(self) -> (bits: [u8; 3])
        ensures
            bits@ == one_hot(self),
    {
        let bits: [u8; 3] = match self {
            JumpEnvironmentTile::Empty => [0u8, 0u8, 0u8],
            JumpEnvironmentTile::Ground => [1u8, 0u8, 0u8],
            JumpEnvironmentTile::Player => [0u8, 1u8, 0u8],
            JumpEnvironmentTile::Wall => [0u8, 0u8, 1u8],
        };
        assert(bits@ =~= one_hot(self));
        bits
    }

    /// Decodes three flags, by priority: player, then wall, then ground.
    pub fn from_bits(bits: &[u8; 3]) -> (tile: JumpEnvironmentTile)
        ensures
            tile == tile_of(bits@),
    {
        if bits[PLAYER_TILE] == 1 {
            JumpEnvironmentTile::Player
        } else if bits[WALL_TILE] == 1 {
            JumpEnvironmentTile::Wall
        } else if bits[GROUND_TILE] == 1 {
            JumpEnvironmentTile::Ground
        } else {
            JumpEnvironmentTile::Empty
        }
    }
}

/// Decoding an encoded tile gives the tile back.
pub proof fn lemma_decode_encode(tile: JumpEnvironmentTile)
    ensures
        tile_of(one_hot(tile)) == tile,
        one_hot(tile).len() == 3,
{
}

} // verus!
