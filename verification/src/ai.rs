//! What monsters see and when they fire.
//!
//! A monster sees the player when the straight line of tiles between the
//! two holds no solid tile. While it sees the player it fires at the
//! player's position; when it loses sight it holds fire, but stays aware.

use vstd::prelude::*;
use crate::tile::Tile;
use crate::tilemap::{in_bounds, map_shaped, solid_at, Coords, TileMap};
use crate::weapon::{Cooldown, FireMode, Weapon};

verus! {

pub open spec fn abs_diff(a: int, b: int) -> int {
    if a <= b {
        b - a
    } else {
        a - b
    }
}

/// Number of steps from tile `a` to tile `b`: the larger of the two
/// distances along the axes.
pub open spec fn line_steps(a: Coords, b: Coords) -> int {
    let dx = abs_diff(a.x as int, b.x as int);
    let dy = abs_diff(a.y as int, b.y as int);
    if dx >= dy {
        dx
    } else {
        dy
    }
}

/// How far step `i` of `n` has come along an axis on which the line
/// covers `d` tiles: `i * d / n`, rounded to the nearest whole tile.
pub open spec fn line_offset(d: int, n: int, i: int) -> int {
    if n == 0 {
        0
    } else {
        (2 * i * d + n) / (2 * n)
    }
}

/// Coordinate of step `i` of `n` on the way from `from` to `to`.
pub open spec fn line_coord(from: int, to: int, n: int, i: int) -> int {
    if from <= to {
        from + line_offset(to - from, n, i)
    } else {
        from - line_offset(from - to, n, i)
    }
}

/// The tile that the line from `a` to `b` crosses at step `i`. Step 0 is
/// `a`; each step moves one tile along the longer axis.
pub open spec fn line_tile(a: Coords, b: Coords, i: int) -> (int, int) {
    let n = line_steps(a, b);
    (line_coord(a.x as int, b.x as int, n, i), line_coord(a.y as int, b.y as int, n, i))
}

/// There is a line of sight from `a` to `b`: no tile of the line between
/// them, the two ends included, is solid.
pub open spec fn line_of_sight(cells: Seq<Seq<Tile>>, a: Coords, b: Coords) -> bool {
    forall|i: int|
        0 <= i <= line_steps(a, b) ==> !solid_at(
            cells,
            (#[trigger] line_tile(a, b, i)).0,
            line_tile(a, b, i).1,
        )
}

/// A line starts on its first tile and ends on its last.
pub proof fn lemma_line_ends(a: Coords, b: Coords)
    ensures
        line_tile(a, b, 0) == (a.x as int, a.y as int),
        line_tile(a, b, line_steps(a, b)) == (b.x as int, b.y as int),
{
    let n = line_steps(a, b);
    if n > 0 {
        let dx = abs_diff(a.x as int, b.x as int);
        let dy = abs_diff(a.y as int, b.y as int);
        lemma_offset_ends(dx, n);
        lemma_offset_ends(dy, n);
    }
}

proof fn lemma_offset_ends(d: int, n: int)
    requires
        0 < n,
    ensures
        line_offset(d, n, 0) == 0,
        line_offset(d, n, n) == d,
{
    assert(2 * 0 * d + n == 0 * (2 * n) + n) by (nonlinear_arith);
    vstd::arithmetic::div_mod::lemma_fundamental_div_mod_converse(2 * 0 * d + n, 2 * n, 0, n);
    assert(2 * n * d + n == d * (2 * n) + n) by (nonlinear_arith);
    vstd::arithmetic::div_mod::lemma_fundamental_div_mod_converse(2 * n * d + n, 2 * n, d, n);
}

/// A rounded share of `d` is at most `d`.
proof fn lemma_offset_bound(d: int, n: int, i: int)
    requires
        0 <= i <= n,
        0 <= d <= n,
        0 < n,
    ensures
        0 <= line_offset(d, n, i) <= d,
{
    let q = (2 * i * d + n) / (2 * n);
    assert(0 <= 2 * i * d + n < 2 * n * (d + 1)) by (nonlinear_arith)
        requires
            0 <= i <= n,
            0 <= d <= n,
            0 < n,
    ;
    vstd::arithmetic::div_mod::lemma_fundamental_div_mod(2 * i * d + n, 2 * n);
    vstd::arithmetic::div_mod::lemma_mod_bound(2 * i * d + n, 2 * n);
    assert(0 <= q <= d) by (nonlinear_arith)
        requires
            0 <= 2 * i * d + n < 2 * n * (d + 1),
            2 * i * d + n == (2 * n) * q + (2 * i * d + n) % (2 * n),
            0 <= (2 * i * d + n) % (2 * n) < 2 * n,
            0 < n,
    ;
}

/// Coordinate of step `i` of `n` on the way from `from` to `to`.
fn coord_at(from: i32, to: i32, n: i32, i: i32) -> (c: i32)
    requires
        0 <= from <= 0xffff,
        0 <= to <= 0xffff,
        0 < n <= 0xffff,
        0 <= i <= n,
        abs_diff(from as int, to as int) <= n,
    ensures
        c == line_coord(from as int, to as int, n as int, i as int),
        0 <= c <= 0xffff,
{
    let d: i64 = if from <= to {
        to as i64 - from as i64
    } else {
        from as i64 - to as i64
    };
    proof {
        lemma_offset_bound(d as int, n as int, i as int);
        assert(0 <= 2 * i * d <= 2 * 0xffff * 0xffff) by (nonlinear_arith)
            requires
                0 <= i <= 0xffff,
                0 <= d <= 0xffff,
        ;
    }
    let offset: i64 = (2 * (i as i64) * d + n as i64) / (2 * (n as i64));
    if from <= to {
        (from as i64 + offset) as i32
    } else {
        (from as i64 - offset) as i32
    }
}

/// Whether a creature on tile `from` sees tile `to`: whether the line of
/// tiles between them is free of solid tiles.
pub fn ai_los(map: &TileMap, from: Coords, to: Coords) -> (seen: bool)
    ensures
        seen == line_of_sight(map@, from, to),
{
    proof {
        lemma_line_ends(from, to);
    }
    if map.is_solid(from.x, from.y) || map.is_solid(to.x, to.y) {
        assert(line_tile(from, to, 0) == (from.x as int, from.y as int));
        assert(line_tile(from, to, line_steps(from, to)) == (to.x as int, to.y as int));
        return false;
    }
    proof {
        use_type_invariant(map);
    }
    let dx: i32 = if from.x <= to.x {
        to.x - from.x
    } else {
        from.x - to.x
    };
    let dy: i32 = if from.y <= to.y {
        to.y - from.y
    } else {
        from.y - to.y
    };
    let n: i32 = if dx >= dy {
        dx
    } else {
        dy
    };
    if n == 0 {
        return true;
    }
    let mut i: i32 = 0;
    while i <= n
        invariant
            map_shaped(map@),
            in_bounds(map@, from.x as int, from.y as int),
            in_bounds(map@, to.x as int, to.y as int),
            !solid_at(map@, from.x as int, from.y as int),
            !solid_at(map@, to.x as int, to.y as int),
            n == line_steps(from, to),
            0 < n <= 0xffff,
            0 <= i <= n + 1,
            forall|k: int|
                0 <= k < i ==> !solid_at(
                    map@,
                    (#[trigger] line_tile(from, to, k)).0,
                    line_tile(from, to, k).1,
                ),
        decreases n + 1 - i,
    {
        let x = coord_at(from.x, to.x, n, i);
        let y = coord_at(from.y, to.y, n, i);
        assert(line_tile(from, to, i as int) == (x as int, y as int));
        if map.is_solid(x, y) {
            return false;
        }
        i = i + 1;
    }
    true
}

/// What a monster knows of the player.
#[derive(Copy, Clone, PartialEq, Eq, Structural, Debug)]
pub enum AiState {
    /// It has never seen the player.
    Idle,
    /// It has seen the player, and does not see the player now.
    Aware,
    /// It sees the player and fires.
    Firing,
}

impl AiState {
    /// The state after a look at the world: a monster that sees the
    /// player fires, one that has lost sight stays aware, and one that
    /// never saw the player stays idle.
    pub open spec fn after_look(self, sees_player: bool) -> AiState {
        if sees_player {
            AiState::Firing
        } else if self is Idle {
            AiState::Idle
        } else {
            AiState::Aware
        }
    }

    pub fn look(self, sees_player: bool) -> (next: AiState)
        ensures
            next == self.after_look(sees_player),
    {
        if sees_player {
            AiState::Firing
        } else {
            match self {
                AiState::Idle => AiState::Idle,
                _ => AiState::Aware,
            }
        }
    }
}

/// Decides for one monster whether it fires, from what it sees in this
/// step: its weapon is told to fire at `player_pos` while the player is
/// seen, and to hold fire otherwise.
pub fn ai_fire<P: Copy>(state: AiState, sees_player: bool, player_pos: P, weapon: &mut Weapon<P>) -> (next: AiState)
    ensures
        next == state.after_look(sees_player),
        sees_player ==> final(weapon).firing == FireMode::FireAt(player_pos),
        !sees_player ==> final(weapon).firing is NoFire,
        final(weapon).projectile == old(weapon).projectile,
        final(weapon).cooldown == (Cooldown {
            paused: old(weapon).cooldown.paused && !sees_player,
            ..old(weapon).cooldown
        }),
{
    if sees_player {
        weapon.set_fire_state(FireMode::FireAt(player_pos));
    } else {
        weapon.set_fire_state(FireMode::NoFire);
    }
    state.look(sees_player)
}

} // verus!
