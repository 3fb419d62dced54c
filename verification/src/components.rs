//! The components that entities carry, and the messages that systems exchange.

use vstd::prelude::*;
use crate::geometry::Point;

verus! {

/// An entity, named by its index in the world.
pub type EntityId = usize;

/// The colors the game draws with.
#[derive(Clone, Copy, Debug, PartialEq, Eq, Structural)]
pub enum NamedColor {
    White,
    Black,
    Red,
    Yellow,
    DarkGrey,
}

/// A foreground and a background color.
#[derive(Clone, Copy, Debug, PartialEq, Eq, Structural)]
pub struct ColorPair {
    pub fg: NamedColor,
    pub bg: NamedColor,
}

impl ColorPair {
    pub fn new(fg: NamedColor, bg: NamedColor) -> (c: ColorPair)
        ensures
            c.fg == fg,
            c.bg == bg,
    {
        ColorPair { fg, bg }
    }
}

/// How an entity is drawn: its colors and its glyph.
#[derive(Clone, Copy, Debug, PartialEq, Eq, Structural)]
pub struct Render {
    pub color: ColorPair,
    pub glyph: u16,
}

/// Marks the player, with the dungeon level the player is on.
#[derive(Clone, Copy, Debug, PartialEq, Eq, Structural)]
pub struct Player {
    pub map_level: u32,
}

/// Hit points.
#[derive(Clone, Copy, Debug, PartialEq, Eq, Structural)]
pub struct Health {
    pub current: i32,
    pub max: i32,
}

/// What an entity can see.
#[derive(Clone, Debug)]
pub struct FieldOfView {
    pub visible_tiles: Vec<Point>,
    pub radius: i32,
    pub is_dirty: bool,
}

impl FieldOfView {
    /// A field of view of the given radius, still to be computed.
    pub fn new(radius: i32) -> (f: FieldOfView)
        ensures
            f.visible_tiles@.len() == 0,
            f.radius == radius,
            f.is_dirty,
    {
        FieldOfView { visible_tiles: Vec::new(), radius, is_dirty: true }
    }

    /// A field of view of the same radius, to be computed again.
    pub fn clone_dirty(&self) -> (f: FieldOfView)
        ensures
            f.visible_tiles@.len() == 0,
            f.radius == self.radius,
            f.is_dirty,
    {
        FieldOfView { visible_tiles: Vec::new(), radius: self.radius, is_dirty: true }
    }

    /// Whether `p` is among the visible tiles.
    pub fn contains(&self, p: Point) -> (b: bool)
        ensures
            b == self.visible_tiles@.contains(p),
    {
        let mut i: usize = 0;
        while i < self.visible_tiles.len()
            invariant
                i <= self.visible_tiles.len(),
                forall|k: int| 0 <= k < i ==> self.visible_tiles@[k] != p,
            decreases self.visible_tiles.len() - i,
        {
            if self.visible_tiles[i] == p {
                return true;
            }
            i = i + 1;
        }
        false
    }
}

/// A request that `entity` move to `destination`.
#[derive(Clone, Copy, Debug, PartialEq, Eq, Structural)]
pub struct WantsToMove {
    pub entity: EntityId,
    pub destination: Point,
}

/// A request that `attacker` strike `victim`.
#[derive(Clone, Copy, Debug, PartialEq, Eq, Structural)]
pub struct WantsToAttack {
    pub attacker: EntityId,
    pub victim: EntityId,
}

/// A request that `used_by` use `item`.
#[derive(Clone, Copy, Debug, PartialEq, Eq, Structural)]
pub struct ActivateItem {
    pub used_by: EntityId,
    pub item: EntityId,
}

/// A message entity that a system adds to the world.
#[derive(Clone, Copy, Debug, PartialEq, Eq, Structural)]
pub enum Message {
    Move(WantsToMove),
    Attack(WantsToAttack),
    Activate(ActivateItem),
}

/// An entity and where it stands.
#[derive(Clone, Copy, Debug, PartialEq, Eq, Structural)]
pub struct Located {
    pub entity: EntityId,
    pub pos: Point,
}

} // verus!
