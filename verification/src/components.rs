//! The components a connection entity is composed of.

use crate::text::Text;
use vstd::prelude::*;

verus! {

/// Position in the world. Each coordinate is a fixed-point number with
/// five fractional bits: 32 units to the block.
#[derive(Clone, Copy, Debug, PartialEq, Eq)]
pub struct Pos {
    pub x: i16,
    pub y: i16,
    pub z: i16,
}

/// Heading of an entity: a full turn is 256 steps of yaw or pitch.
#[derive(Clone, Copy, Debug, PartialEq, Eq)]
pub struct Rotation {
    pub yaw: u8,
    pub pitch: u8,
}

/// The last observed change of position, coordinate by coordinate, in
/// the units of [`Pos`].
#[derive(Clone, Copy, Debug, PartialEq, Eq)]
pub struct DeltaVel {
    pub dx: i32,
    pub dy: i32,
    pub dz: i32,
}

/// Who is behind a connection.
#[derive(Debug, PartialEq, Eq)]
pub struct Player {
    /// The user name chosen at identification; empty before.
    pub username: Text,
    /// Whether the name is on the whitelist.
    pub whitelisted: bool,
    /// Whether the name is banned.
    pub banned: bool,
}

/// What [`Player`] holds, as mathematical values.
pub struct PlayerView {
    pub username: Seq<u8>,
    pub whitelisted: bool,
    pub banned: bool,
}

impl View for Player {
    type V = PlayerView;

    open spec fn view(&self) -> PlayerView {
        PlayerView {
            username: self.username@,
            whitelisted: self.whitelisted,
            banned: self.banned,
        }
    }
}

impl Pos {
    /// Where every entity starts.
    pub fn origin() -> (p: Pos)
        ensures
            p == (Pos { x: 0, y: 0, z: 0 }),
    {
        Pos { x: 0, y: 0, z: 0 }
    }

    /// The change of position that leads from `from` to `self`.
    pub open spec fn delta_from(self, from: Pos) -> DeltaVel {
        DeltaVel {
            dx: (self.x - from.x) as i32,
            dy: (self.y - from.y) as i32,
            dz: (self.z - from.z) as i32,
        }
    }

    /// Computes [`Pos::delta_from`].
    pub fn since(&self, from: &Pos) -> (d: DeltaVel)
        ensures
            d == self.delta_from(*from),
            d.dx == self.x - from.x,
            d.dy == self.y - from.y,
            d.dz == self.z - from.z,
    {
        DeltaVel {
            dx: self.x as i32 - from.x as i32,
            dy: self.y as i32 - from.y as i32,
            dz: self.z as i32 - from.z as i32,
        }
    }
}

impl Rotation {
    /// The heading every entity starts with.
    pub fn ahead() -> (r: Rotation)
        ensures
            r == (Rotation { yaw: 0, pitch: 0 }),
    {
        Rotation { yaw: 0, pitch: 0 }
    }
}

impl DeltaVel {
    /// No movement.
    pub fn still() -> (d: DeltaVel)
        ensures
            d == (DeltaVel { dx: 0, dy: 0, dz: 0 }),
    {
        DeltaVel { dx: 0, dy: 0, dz: 0 }
    }

    /// Whether each coordinate of the change fits in one signed byte, so
    /// that a relative update can carry it.
    pub open spec fn is_small(self) -> bool {
        &&& -128 <= self.dx <= 127
        &&& -128 <= self.dy <= 127
        &&& -128 <= self.dz <= 127
    }

    /// Computes [`DeltaVel::is_small`].
    pub fn fits_in_bytes(&self) -> (small: bool)
        ensures
            small == self.is_small(),
    {
        -128 <= self.dx && self.dx <= 127 && -128 <= self.dy && self.dy <= 127 && -128 <= self.dz
            && self.dz <= 127
    }
}

impl Player {
    /// A player that has not identified yet.
    pub fn anonymous() -> (p: Player)
        ensures
            p@ == (PlayerView { username: Seq::empty(), whitelisted: false, banned: false }),
    {
        Player { username: Text::empty(), whitelisted: false, banned: false }
    }
}

} // verus!
