use vstd::prelude::*;

use crate::game::Color;
use crate::game::GameState;
use crate::game::PlayerState;
use crate::math::Complex;
use crate::math::Vector;

verus! {

/// Sent from server to client once, immediately on connect.
pub struct InitPackage {
    pub player_id: u64,
}

/// Sent from server to client at a fixed cadence: the full world snapshot,
/// the sequence number of the last input the server has applied, and the
/// player's session state.
pub struct BroadcastPackage {
    pub sequence_number: u32,
    pub game_state: GameState,
    pub player_state: PlayerState,
}

/// Sent from client to server as the first message after `Init`.
pub struct PlayerConnectedPackage {
    pub color: Color,
}

/// The weapon a player can choose on respawn.
#[derive(Clone, Copy, PartialEq, Eq, Structural, Debug)]
pub enum PlayerWeapon {
    BallGun,
    PulseGun,
    RayGun,
    Shield,
    MineGun,
}

impl PlayerWeapon {
    pub open spec fn spec_rotated_left(self) -> Self {
        match self {
            PlayerWeapon::BallGun => PlayerWeapon::MineGun,
            PlayerWeapon::PulseGun => PlayerWeapon::BallGun,
            PlayerWeapon::RayGun => PlayerWeapon::PulseGun,
            PlayerWeapon::Shield => PlayerWeapon::RayGun,
            PlayerWeapon::MineGun => PlayerWeapon::Shield,
        }
    }

    pub open spec fn spec_rotated_right(self) -> Self {
        match self {
            PlayerWeapon::BallGun => PlayerWeapon::PulseGun,
            PlayerWeapon::PulseGun => PlayerWeapon::RayGun,
            PlayerWeapon::RayGun => PlayerWeapon::Shield,
            PlayerWeapon::Shield => PlayerWeapon::MineGun,
            PlayerWeapon::MineGun => PlayerWeapon::BallGun,
        }
    }

    /// The previous weapon in the selection wheel.
    pub fn rotated_left(self) -> (r: Self)
        ensures
            r == self.spec_rotated_left(),
    {
        match self {
            PlayerWeapon::BallGun => PlayerWeapon::MineGun,
            PlayerWeapon::PulseGun => PlayerWeapon::BallGun,
            PlayerWeapon::RayGun => PlayerWeapon::PulseGun,
            PlayerWeapon::Shield => PlayerWeapon::RayGun,
            PlayerWeapon::MineGun => PlayerWeapon::Shield,
        }
    }

    /// The next weapon in the selection wheel.
    pub fn rotated_right(self) -> (r: Self)
        ensures
            r == self.spec_rotated_right(),
    {
        match self {
            PlayerWeapon::BallGun => PlayerWeapon::PulseGun,
            PlayerWeapon::PulseGun => PlayerWeapon::RayGun,
            PlayerWeapon::RayGun => PlayerWeapon::Shield,
            PlayerWeapon::Shield => PlayerWeapon::MineGun,
            PlayerWeapon::MineGun => PlayerWeapon::BallGun,
        }
    }
}

/// Rotating the weapon wheel one step left and one step right, in either
/// order, returns the selection unchanged.
pub proof fn lemma_weapon_wheel_round_trip(w: PlayerWeapon)
    ensures
        w.spec_rotated_left().spec_rotated_right() == w,
        w.spec_rotated_right().spec_rotated_left() == w,
{
}

/// Sent from client to server to respawn after death, choosing a weapon.
pub struct RespawnRequestPackage {
    pub weapon: PlayerWeapon,
}

/// Sent from client to server whenever the player input changed.
pub struct PlayerInputPackage {
    pub sequence_number: u32,
    pub movement: Vector,
    pub rotation: Complex,
    pub left_mouse_pressed: bool,
}

/// Sent from server to client when the player's character died.
pub struct KillPackage {}

pub enum ServerToClientPackage {
    Init(InitPackage),
    Broadcast(BroadcastPackage),
    Kill(KillPackage),
}

pub enum ClientToServerPackage {
    PlayerConnected(PlayerConnectedPackage),
    RespawnRequest(RespawnRequestPackage),
    PlayerInput(PlayerInputPackage),
}

} // verus!
