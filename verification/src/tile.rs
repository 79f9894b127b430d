//! Tile kinds and what they mean for movement and rendering.

use vstd::prelude::*;

verus! {

/// One cell of the level grid.
#[derive(Copy, Clone, PartialEq, Eq, Structural, Debug)]
pub enum Tile {
    Void,
    Floor1,
    Floor2,
    Wall1,
    Wall2,
    Wall3,
    Wall4,
}

/// Position of a texture inside the 4x4 texture atlas, in atlas cells.
#[derive(Copy, Clone, PartialEq, Eq, Structural, Debug)]
pub struct TexId {
    pub x: i32,
    pub y: i32,
}

impl Tile {
    /// A tile blocks movement unless it is one of the floors.
    pub open spec fn solid(self) -> bool {
        !(self is Floor1 || self is Floor2)
    }

    /// The atlas cell that a tile is drawn with.
    pub open spec fn tex_id(self) -> TexId {
        match self {
            Tile::Floor1 => TexId { x: 0, y: 1 },
            Tile::Floor2 => TexId { x: 1, y: 1 },
            Tile::Wall1 => TexId { x: 0, y: 0 },
            Tile::Wall2 => TexId { x: 1, y: 0 },
            Tile::Wall3 => TexId { x: 2, y: 0 },
            Tile::Wall4 => TexId { x: 3, y: 0 },
            Tile::Void => TexId { x: 1, y: 2 },
        }
    }

    pub fn is_solid(&self) -> (b: bool)
        ensures
            b == self.solid(),
    {
        match self {
            Tile::Floor1 => false,
            Tile::Floor2 => false,
            _ => true,
        }
    }

    pub fn is_void(&self) -> (b: bool)
        ensures
            b == (*self == Tile::Void),
    {
        *self == Tile::Void
    }

    pub fn get_tex_id(&self) -> (id: TexId)
        ensures
            id == self.tex_id(),
            0 <= id.x < 4,
            0 <= id.y < 4,
    {
        match self {
            Tile::Floor1 => TexId { x: 0, y: 1 },
            Tile::Floor2 => TexId { x: 1, y: 1 },
            Tile::Wall1 => TexId { x: 0, y: 0 },
            Tile::Wall2 => TexId { x: 1, y: 0 },
            Tile::Wall3 => TexId { x: 2, y: 0 },
            Tile::Wall4 => TexId { x: 3, y: 0 },
            _ => TexId { x: 1, y: 2 },
        }
    }
}

impl Default for Tile {
    fn default() -> (t: Tile)
        ensures
            t == Tile::Void,
    {
        Tile::Void
    }
}

} // verus!
