//! How moving bodies meet the tile grid.
//!
//! Every body is resolved against the grid by itself, so the outcome for
//! one body never depends on the order in which bodies are looked at.
//! Bodies against bodies are the business of combat and pickups.

use vstd::prelude::*;
use crate::mapgen::in_rect;
use crate::tile::Tile;
use crate::tilemap::{grid_height, grid_width, map_shaped, solid_at, Coords, TileMap};

verus! {

/// How a body reacts when it runs into a solid tile.
#[derive(Copy, Clone, PartialEq, Eq, Structural, Debug)]
pub enum MapCollisionEvent {
    /// It stays where it was.
    Stop,
    /// It is removed from the world.
    Destroy,
}

/// What becomes of a body in one step.
#[derive(Copy, Clone, PartialEq, Eq, Structural, Debug)]
pub enum Motion {
    /// It has no velocity and stays.
    Rest,
    /// It moves to where its velocity takes it.
    Advance,
    /// It was blocked and keeps its last position.
    Halt,
    /// It was blocked and is removed from the world.
    Remove,
}

/// One body in one step: how it reacts to walls, whether it has any
/// velocity, and whether the place it would move to lies over a solid tile.
#[derive(Copy, Clone, PartialEq, Eq, Structural, Debug)]
pub struct BodyStep {
    pub on_collision: MapCollisionEvent,
    pub moving: bool,
    pub blocked: bool,
}

/// Some tile of the rectangle with the corners `c0` and `c1` is solid.
pub open spec fn area_solid(cells: Seq<Seq<Tile>>, c0: Coords, c1: Coords) -> bool {
    exists|x: int, y: int| in_rect(x, y, c0, c1) && #[trigger] solid_at(cells, x, y)
}

/// What becomes of a body.
pub open spec fn motion_of(body: BodyStep) -> Motion {
    if !body.moving {
        Motion::Rest
    } else if !body.blocked {
        Motion::Advance
    } else {
        match body.on_collision {
            MapCollisionEvent::Stop => Motion::Halt,
            MapCollisionEvent::Destroy => Motion::Remove,
        }
    }
}

/// Whether any of the tiles from `c0` to `c1`, the tiles that the
/// footprint of a body touches, is solid.
pub fn area_blocked(map: &TileMap, c0: Coords, c1: Coords) -> (blocked: bool)
    ensures
        blocked == area_solid(map@, c0, c1),
{
    if c0.x > c1.x || c0.y > c1.y {
        return false;
    }
    let width: i32 = map.width();
    let height: i32 = map.height();
    if c0.x < 0 || c0.y < 0 || c1.x >= width || c1.y >= height {
        proof {
            let x = if c0.x < 0 {
                c0.x as int
            } else {
                c1.x as int
            };
            let y = if c0.y < 0 {
                c0.y as int
            } else {
                c1.y as int
            };
            if c0.x < 0 || c1.x >= width {
                assert(in_rect(x, c0.y as int, c0, c1) && solid_at(map@, x, c0.y as int));
            } else {
                assert(in_rect(c0.x as int, y, c0, c1) && solid_at(map@, c0.x as int, y));
            }
        }
        return true;
    }
    let mut y: i32 = c0.y;
    while y <= c1.y
        invariant
            map_shaped(map@),
            width == grid_width(map@),
            height == grid_height(map@),
            0 <= c0.x <= c1.x < width,
            0 <= c0.y <= c1.y < height,
            c0.y <= y <= c1.y + 1,
            forall|cx: int, cy: int|
                in_rect(cx, cy, c0, c1) && cy < y ==> !#[trigger] solid_at(map@, cx, cy),
        decreases c1.y + 1 - y,
    {
        let mut x: i32 = c0.x;
        while x <= c1.x
            invariant
                map_shaped(map@),
                width == grid_width(map@),
                height == grid_height(map@),
                0 <= c0.x <= c1.x < width,
                0 <= c0.y <= c1.y < height,
                c0.y <= y <= c1.y,
                c0.x <= x <= c1.x + 1,
                forall|cx: int, cy: int|
                    in_rect(cx, cy, c0, c1) && cy < y ==> !#[trigger] solid_at(map@, cx, cy),
                forall|cx: int| c0.x <= cx < x ==> !#[trigger] solid_at(map@, cx, y as int),
            decreases c1.x + 1 - x,
        {
            if map.is_solid(x, y) {
                assert(in_rect(x as int, y as int, c0, c1) && solid_at(map@, x as int, y as int));
                return true;
            }
            x = x + 1;
        }
        y = y + 1;
    }
    false
}

/// Resolves one body against the grid: a body at rest stays, a body whose
/// way is free advances, and a blocked body halts or is removed, as its
/// reaction says.
pub fn resolve_motion(body: BodyStep) -> (motion: Motion)
    ensures
        motion == motion_of(body),
{
    if !body.moving {
        Motion::Rest
    } else if !body.blocked {
        Motion::Advance
    } else {
        match body.on_collision {
            MapCollisionEvent::Stop => Motion::Halt,
            MapCollisionEvent::Destroy => Motion::Remove,
        }
    }
}

/// Resolves every body against the grid. The outcome for a body depends
/// on that body alone: on no other body, and not on the order of the list.
pub fn do_physics(bodies: &Vec<BodyStep>) -> (motions: Vec<Motion>)
    ensures
        motions.len() == bodies.len(),
        forall|i: int| 0 <= i < bodies.len() ==> #[trigger] motions@[i] == motion_of(bodies@[i]),
{
    let mut motions: Vec<Motion> = Vec::new();
    let mut i: usize = 0;
    while i < bodies.len()
        invariant
            0 <= i <= bodies.len(),
            motions.len() == i,
            forall|k: int| 0 <= k < i ==> #[trigger] motions@[k] == motion_of(bodies@[k]),
        decreases bodies.len() - i,
    {
        motions.push(resolve_motion(bodies[i]));
        i = i + 1;
    }
    motions
}

} // verus!
