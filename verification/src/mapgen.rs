//! Carving rooms and corridors into a tile map.

use vstd::prelude::*;
use crate::tile::Tile;
use crate::tilemap::{
    blank_cells, grid_height, grid_width, in_bounds, map_shaped, with_tile, Coords, TileMap,
};

verus! {

/// `(x, y)` lies in the rectangle with the corners `c0` and `c1`.
pub open spec fn in_rect(x: int, y: int, c0: Coords, c1: Coords) -> bool {
    c0.x <= x <= c1.x && c0.y <= y <= c1.y
}

/// `(x, y)` lies in that rectangle grown by one cell on every side.
pub open spec fn in_frame(x: int, y: int, c0: Coords, c1: Coords) -> bool {
    c0.x - 1 <= x <= c1.x + 1 && c0.y - 1 <= y <= c1.y + 1
}

/// What one cell holds after a room was carved: inside the room the floor,
/// and wherever the room or its one-cell border would be left `Void`, the
/// wall. A cell that already holds anything but `Void` keeps it.
pub open spec fn carved_tile(
    before: Tile,
    floor: Tile,
    wall: Tile,
    c0: Coords,
    c1: Coords,
    x: int,
    y: int,
) -> Tile {
    let floored = if in_rect(x, y, c0, c1) {
        floor
    } else {
        before
    };
    if in_frame(x, y, c0, c1) && floored == Tile::Void {
        wall
    } else {
        floored
    }
}

/// The grid after the room `c0`..`c1` was carved into `cells`.
pub open spec fn carved(
    cells: Seq<Seq<Tile>>,
    floor: Tile,
    wall: Tile,
    c0: Coords,
    c1: Coords,
) -> Seq<Seq<Tile>> {
    Seq::new(
        cells.len(),
        |y: int|
            Seq::new(
                cells[y].len(),
                |x: int| carved_tile(cells[y][x], floor, wall, c0, c1, x, y),
            ),
    )
}

/// The room can be carved: growing it by one cell does not leave `i32`, and
/// the grown rectangle, unless it is empty, lies inside the grid.
pub open spec fn room_fits(cells: Seq<Seq<Tile>>, c0: Coords, c1: Coords) -> bool {
    &&& i32::MIN < c0.x
    &&& i32::MIN < c0.y
    &&& c1.x < i32::MAX
    &&& c1.y < i32::MAX
    &&& (c0.x - 1 <= c1.x + 1 && c0.y - 1 <= c1.y + 1) ==> {
        &&& 1 <= c0.x
        &&& 1 <= c0.y
        &&& c1.x + 1 < grid_width(cells)
        &&& c1.y + 1 < grid_height(cells)
    }
}

/// `(x, y)` comes before `(cx, cy)` when rows are walked one after another.
spec fn scanned(x: int, y: int, cx: int, cy: int) -> bool {
    y < cy || (y == cy && x < cx)
}

/// `cells` with the floor laid in the part of the room walked so far.
spec fn floor_laid(
    cells: Seq<Seq<Tile>>,
    floor: Tile,
    c0: Coords,
    c1: Coords,
    cx: int,
    cy: int,
) -> Seq<Seq<Tile>> {
    Seq::new(
        cells.len(),
        |y: int|
            Seq::new(
                cells[y].len(),
                |x: int|
                    if in_rect(x, y, c0, c1) && scanned(x, y, cx, cy) {
                        floor
                    } else {
                        cells[y][x]
                    },
            ),
    )
}

/// `cells` with the wall stamped in the part of the frame walked so far.
spec fn wall_stamped(
    cells: Seq<Seq<Tile>>,
    wall: Tile,
    c0: Coords,
    c1: Coords,
    cx: int,
    cy: int,
) -> Seq<Seq<Tile>> {
    Seq::new(
        cells.len(),
        |y: int|
            Seq::new(
                cells[y].len(),
                |x: int|
                    if in_frame(x, y, c0, c1) && scanned(x, y, cx, cy) && cells[y][x] == Tile::Void {
                        wall
                    } else {
                        cells[y][x]
                    },
            ),
    )
}

proof fn lemma_floor_step(cells: Seq<Seq<Tile>>, floor: Tile, c0: Coords, c1: Coords, x: int, y: int)
    requires
        in_rect(x, y, c0, c1),
        in_bounds(cells, x, y),
    ensures
        in_bounds(floor_laid(cells, floor, c0, c1, x, y), x, y),
        with_tile(floor_laid(cells, floor, c0, c1, x, y), x, y, floor) == floor_laid(
            cells,
            floor,
            c0,
            c1,
            x + 1,
            y,
        ),
{
    assert(with_tile(floor_laid(cells, floor, c0, c1, x, y), x, y, floor) =~~= floor_laid(
        cells,
        floor,
        c0,
        c1,
        x + 1,
        y,
    ));
}

proof fn lemma_floor_row(cells: Seq<Seq<Tile>>, floor: Tile, c0: Coords, c1: Coords, x: int, y: int)
    requires
        x > c1.x,
    ensures
        floor_laid(cells, floor, c0, c1, x, y) == floor_laid(cells, floor, c0, c1, c0.x as int, y + 1),
{
    assert(floor_laid(cells, floor, c0, c1, x, y) =~~= floor_laid(
        cells,
        floor,
        c0,
        c1,
        c0.x as int,
        y + 1,
    ));
}

proof fn lemma_floor_none(cells: Seq<Seq<Tile>>, floor: Tile, c0: Coords, c1: Coords)
    ensures
        floor_laid(cells, floor, c0, c1, c0.x as int, c0.y as int) == cells,
{
    assert(floor_laid(cells, floor, c0, c1, c0.x as int, c0.y as int) =~~= cells);
}

proof fn lemma_wall_step(cells: Seq<Seq<Tile>>, wall: Tile, c0: Coords, c1: Coords, x: int, y: int)
    requires
        in_frame(x, y, c0, c1),
        in_bounds(cells, x, y),
    ensures
        in_bounds(wall_stamped(cells, wall, c0, c1, x, y), x, y),
        wall_stamped(cells, wall, c0, c1, x, y)[y][x] == cells[y][x],
        cells[y][x] == Tile::Void ==> with_tile(wall_stamped(cells, wall, c0, c1, x, y), x, y, wall)
            == wall_stamped(cells, wall, c0, c1, x + 1, y),
        cells[y][x] != Tile::Void ==> wall_stamped(cells, wall, c0, c1, x, y) == wall_stamped(
            cells,
            wall,
            c0,
            c1,
            x + 1,
            y,
        ),
{
    if cells[y][x] == Tile::Void {
        assert(with_tile(wall_stamped(cells, wall, c0, c1, x, y), x, y, wall) =~~= wall_stamped(
            cells,
            wall,
            c0,
            c1,
            x + 1,
            y,
        ));
    } else {
        assert(wall_stamped(cells, wall, c0, c1, x, y) =~~= wall_stamped(
            cells,
            wall,
            c0,
            c1,
            x + 1,
            y,
        ));
    }
}

proof fn lemma_wall_row(cells: Seq<Seq<Tile>>, wall: Tile, c0: Coords, c1: Coords, x: int, y: int)
    requires
        x > c1.x + 1,
    ensures
        wall_stamped(cells, wall, c0, c1, x, y) == wall_stamped(cells, wall, c0, c1, c0.x - 1, y + 1),
{
    assert(wall_stamped(cells, wall, c0, c1, x, y) =~~= wall_stamped(
        cells,
        wall,
        c0,
        c1,
        c0.x - 1,
        y + 1,
    ));
}

proof fn lemma_wall_none(cells: Seq<Seq<Tile>>, wall: Tile, c0: Coords, c1: Coords)
    ensures
        wall_stamped(cells, wall, c0, c1, c0.x - 1, c0.y - 1) == cells,
{
    assert(wall_stamped(cells, wall, c0, c1, c0.x - 1, c0.y - 1) =~~= cells);
}

/// Floor first, wall second gives the carved grid.
proof fn lemma_carved_in_two_passes(
    cells: Seq<Seq<Tile>>,
    floor: Tile,
    wall: Tile,
    c0: Coords,
    c1: Coords,
)
    ensures
        wall_stamped(
            floor_laid(cells, floor, c0, c1, c0.x as int, c1.y + 1),
            wall,
            c0,
            c1,
            c0.x - 1,
            c1.y + 2,
        ) == carved(cells, floor, wall, c0, c1),
{
    assert(wall_stamped(
        floor_laid(cells, floor, c0, c1, c0.x as int, c1.y + 1),
        wall,
        c0,
        c1,
        c0.x - 1,
        c1.y + 2,
    ) =~~= carved(cells, floor, wall, c0, c1));
}

/// A room whose grown rectangle is empty changes nothing.
proof fn lemma_carved_nothing(cells: Seq<Seq<Tile>>, floor: Tile, wall: Tile, c0: Coords, c1: Coords)
    requires
        c0.x - 1 > c1.x + 1 || c0.y - 1 > c1.y + 1,
    ensures
        carved(cells, floor, wall, c0, c1) == cells,
{
    assert(carved(cells, floor, wall, c0, c1) =~~= cells);
}

/// Carving keeps the shape of the grid.
pub proof fn lemma_carved_shape(cells: Seq<Seq<Tile>>, floor: Tile, wall: Tile, c0: Coords, c1: Coords)
    ensures
        grid_width(carved(cells, floor, wall, c0, c1)) == grid_width(cells),
        grid_height(carved(cells, floor, wall, c0, c1)) == grid_height(cells),
        map_shaped(cells) ==> map_shaped(carved(cells, floor, wall, c0, c1)),
        forall|x: int, y: int|
            in_bounds(carved(cells, floor, wall, c0, c1), x, y) == in_bounds(cells, x, y),
{
}

/// Lays `floor` in every cell of the room.
fn lay_floor(map: &mut TileMap, floor: Tile, c0: Coords, c1: Coords)
    requires
        map_shaped(old(map)@),
        c1.x < i32::MAX,
        c1.y < i32::MAX,
        (c0.x <= c1.x && c0.y <= c1.y) ==> {
            &&& 0 <= c0.x
            &&& 0 <= c0.y
            &&& c1.x < grid_width(old(map)@)
            &&& c1.y < grid_height(old(map)@)
        },
    ensures
        final(map)@ == floor_laid(old(map)@, floor, c0, c1, c0.x as int, c1.y + 1),
{
    let ghost before = map@;
    proof {
        lemma_floor_none(before, floor, c0, c1);
    }
    if c0.y > c1.y {
        proof {
            lemma_floor_row(before, floor, c0, c1, c1.x + 1, c0.y - 1);
            assert(floor_laid(before, floor, c0, c1, c0.x as int, c1.y + 1) =~~= before);
        }
        return ;
    }
    let mut y: i32 = c0.y;
    while y <= c1.y
        invariant
            map_shaped(before),
            c1.x < i32::MAX,
            c1.y < i32::MAX,
            (c0.x <= c1.x && c0.y <= c1.y) ==> {
                &&& 0 <= c0.x
                &&& 0 <= c0.y
                &&& c1.x < grid_width(before)
                &&& c1.y < grid_height(before)
            },
            c0.y <= y <= c1.y + 1,
            map@ == floor_laid(before, floor, c0, c1, c0.x as int, y as int),
        decreases c1.y - y + 1,
    {
        let mut x: i32 = c0.x;
        while x <= c1.x
            invariant
                map_shaped(before),
                c1.x < i32::MAX,
                c1.y < i32::MAX,
                (c0.x <= c1.x && c0.y <= c1.y) ==> {
                    &&& 0 <= c0.x
                    &&& 0 <= c0.y
                    &&& c1.x < grid_width(before)
                    &&& c1.y < grid_height(before)
                },
                c0.y <= y <= c1.y,
                c0.x <= x,
                x <= c1.x + 1 || x == c0.x,
                map@ == floor_laid(before, floor, c0, c1, x as int, y as int),
            decreases c1.x - x + 1,
        {
            proof {
                lemma_floor_step(before, floor, c0, c1, x as int, y as int);
            }
            map.set_tile(x, y, floor);
            x = x + 1;
        }
        proof {
            lemma_floor_row(before, floor, c0, c1, x as int, y as int);
        }
        y = y + 1;
    }
}

/// Puts `wall` on every cell of the grown room that is `Void`.
fn stamp_walls(map: &mut TileMap, wall: Tile, c0: Coords, c1: Coords)
    requires
        map_shaped(old(map)@),
        1 <= c0.x,
        1 <= c0.y,
        c0.x - 1 <= c1.x + 1,
        c0.y - 1 <= c1.y + 1,
        c1.x + 1 < grid_width(old(map)@),
        c1.y + 1 < grid_height(old(map)@),
    ensures
        final(map)@ == wall_stamped(old(map)@, wall, c0, c1, c0.x - 1, c1.y + 2),
{
    let ghost before = map@;
    proof {
        lemma_wall_none(before, wall, c0, c1);
    }
    let mut y: i32 = c0.y - 1;
    while y <= c1.y + 1
        invariant
            map_shaped(before),
            1 <= c0.x,
            1 <= c0.y,
            c0.x - 1 <= c1.x + 1,
            c0.y - 1 <= c1.y + 1,
            c1.x + 1 < grid_width(before),
            c1.y + 1 < grid_height(before),
            c0.y - 1 <= y <= c1.y + 2,
            map@ == wall_stamped(before, wall, c0, c1, c0.x - 1, y as int),
        decreases c1.y + 2 - y,
    {
        let mut x: i32 = c0.x - 1;
        while x <= c1.x + 1
            invariant
                map_shaped(before),
                1 <= c0.x,
                1 <= c0.y,
                c0.x - 1 <= c1.x + 1,
                c0.y - 1 <= c1.y + 1,
                c1.x + 1 < grid_width(before),
                c1.y + 1 < grid_height(before),
                c0.y - 1 <= y <= c1.y + 1,
                c0.x - 1 <= x <= c1.x + 2,
                map@ == wall_stamped(before, wall, c0, c1, x as int, y as int),
            decreases c1.x + 2 - x,
        {
            proof {
                lemma_wall_step(before, wall, c0, c1, x as int, y as int);
            }
            if map.tile(x, y) == Tile::Void {
                map.set_tile(x, y, wall);
            }
            x = x + 1;
        }
        proof {
            lemma_wall_row(before, wall, c0, c1, x as int, y as int);
        }
        y = y + 1;
    }
}

/// Carves the room with the opposite corners `c0` and `c1` into the map:
/// lays `floor` in every cell of the room, then puts `wall` on every cell
/// of the room's one-cell border, and of the room itself, that is still
/// `Void`. Floors of rooms carved earlier are never overwritten by walls.
pub fn add_room(map: &mut TileMap, floor: Tile, wall: Tile, c0: Coords, c1: Coords)
    requires
        room_fits(old(map)@, c0, c1),
    ensures
        final(map)@ == carved(old(map)@, floor, wall, c0, c1),
        map_shaped(final(map)@),
        grid_width(final(map)@) == grid_width(old(map)@),
        grid_height(final(map)@) == grid_height(old(map)@),
{
    let ghost before = map@;
    proof {
        use_type_invariant(&*map);
        lemma_carved_shape(before, floor, wall, c0, c1);
    }
    if c0.x - 1 > c1.x + 1 || c0.y - 1 > c1.y + 1 {
        proof {
            lemma_carved_nothing(before, floor, wall, c0, c1);
        }
        return ;
    }
    lay_floor(map, floor, c0, c1);
    proof {
        use_type_invariant(&*map);
    }
    stamp_walls(map, wall, c0, c1);
    proof {
        lemma_carved_in_two_passes(before, floor, wall, c0, c1);
    }
}

/// Carving a room a second time changes nothing: the grid after two
/// carvings of the same room is the grid after one.
pub proof fn lemma_carving_is_idempotent(
    cells: Seq<Seq<Tile>>,
    floor: Tile,
    wall: Tile,
    c0: Coords,
    c1: Coords,
)
    ensures
        carved(carved(cells, floor, wall, c0, c1), floor, wall, c0, c1) == carved(
            cells,
            floor,
            wall,
            c0,
            c1,
        ),
{
    assert(carved(carved(cells, floor, wall, c0, c1), floor, wall, c0, c1) =~~= carved(
        cells,
        floor,
        wall,
        c0,
        c1,
    ));
}

/// A later room never turns a floor into a wall, nor changes any cell that
/// lies outside its own interior and is not `Void`.
pub proof fn lemma_carving_keeps_floors(
    cells: Seq<Seq<Tile>>,
    floor: Tile,
    wall: Tile,
    c0: Coords,
    c1: Coords,
    x: int,
    y: int,
)
    requires
        in_bounds(cells, x, y),
        cells[y][x] != Tile::Void,
        !in_rect(x, y, c0, c1),
    ensures
        carved(cells, floor, wall, c0, c1)[y][x] == cells[y][x],
{
}

/// A room or corridor of the level plan: the floor and wall it is built
/// of and two opposite corners.
#[derive(Copy, Clone, PartialEq, Eq, Structural, Debug)]
pub struct Room {
    pub floor: Tile,
    pub wall: Tile,
    pub c0: Coords,
    pub c1: Coords,
}

/// Width and height of every generated level, in tiles.
pub const MAP_SIZE: u16 = 32;

/// Number of rooms and corridors in the level plan.
pub const ROOM_COUNT: usize = 9;

/// The rooms of the level in the order in which they are carved. The last
/// three are corridors: rooms that are one tile wide.
pub open spec fn room_plan() -> Seq<Room> {
    seq![
        Room { floor: Tile::Floor1, wall: Tile::Wall1, c0: Coords { x: 2, y: 2 }, c1: Coords { x: 12, y: 12 } },
        Room { floor: Tile::Floor2, wall: Tile::Wall1, c0: Coords { x: 18, y: 1 }, c1: Coords { x: 26, y: 13 } },
        Room { floor: Tile::Floor2, wall: Tile::Wall1, c0: Coords { x: 16, y: 3 }, c1: Coords { x: 28, y: 11 } },
        Room { floor: Tile::Floor2, wall: Tile::Wall3, c0: Coords { x: 2, y: 20 }, c1: Coords { x: 7, y: 27 } },
        Room { floor: Tile::Floor2, wall: Tile::Wall3, c0: Coords { x: 5, y: 17 }, c1: Coords { x: 9, y: 27 } },
        Room { floor: Tile::Floor1, wall: Tile::Wall4, c0: Coords { x: 17, y: 17 }, c1: Coords { x: 27, y: 27 } },
        Room { floor: Tile::Floor1, wall: Tile::Wall2, c0: Coords { x: 7, y: 7 }, c1: Coords { x: 7, y: 22 } },
        Room { floor: Tile::Floor1, wall: Tile::Wall2, c0: Coords { x: 7, y: 22 }, c1: Coords { x: 22, y: 22 } },
        Room { floor: Tile::Floor1, wall: Tile::Wall2, c0: Coords { x: 22, y: 7 }, c1: Coords { x: 22, y: 22 } },
    ]
}

/// The grid after the first `n` rooms of `rooms` were carved into `cells`,
/// one after another.
pub open spec fn carved_rooms(cells: Seq<Seq<Tile>>, rooms: Seq<Room>, n: nat) -> Seq<Seq<Tile>>
    decreases n,
{
    if n == 0 {
        cells
    } else {
        let r = rooms[n - 1];
        carved(carved_rooms(cells, rooms, (n - 1) as nat), r.floor, r.wall, r.c0, r.c1)
    }
}

/// The grid of every generated level: all rooms of the plan carved into a
/// blank grid of `MAP_SIZE` by `MAP_SIZE` tiles.
pub open spec fn level_cells() -> Seq<Seq<Tile>> {
    carved_rooms(blank_cells(MAP_SIZE as nat, MAP_SIZE as nat), room_plan(), ROOM_COUNT as nat)
}

/// Carving rooms keeps the shape of the grid.
pub proof fn lemma_carved_rooms_shape(cells: Seq<Seq<Tile>>, rooms: Seq<Room>, n: nat)
    ensures
        grid_width(carved_rooms(cells, rooms, n)) == grid_width(cells),
        grid_height(carved_rooms(cells, rooms, n)) == grid_height(cells),
        map_shaped(cells) ==> map_shaped(carved_rooms(cells, rooms, n)),
    decreases n,
{
    if n > 0 {
        let r = rooms[n - 1];
        lemma_carved_rooms_shape(cells, rooms, (n - 1) as nat);
        lemma_carved_shape(carved_rooms(cells, rooms, (n - 1) as nat), r.floor, r.wall, r.c0, r.c1);
    }
}

/// The level plan as a vector.
pub fn level_rooms() -> (rooms: Vec<Room>)
    ensures
        rooms@ == room_plan(),
{
    let mut rooms: Vec<Room> = Vec::new();
    rooms.push(Room { floor: Tile::Floor1, wall: Tile::Wall1, c0: Coords::new(2, 2), c1: Coords::new(12, 12) });
    rooms.push(Room { floor: Tile::Floor2, wall: Tile::Wall1, c0: Coords::new(18, 1), c1: Coords::new(26, 13) });
    rooms.push(Room { floor: Tile::Floor2, wall: Tile::Wall1, c0: Coords::new(16, 3), c1: Coords::new(28, 11) });
    rooms.push(Room { floor: Tile::Floor2, wall: Tile::Wall3, c0: Coords::new(2, 20), c1: Coords::new(7, 27) });
    rooms.push(Room { floor: Tile::Floor2, wall: Tile::Wall3, c0: Coords::new(5, 17), c1: Coords::new(9, 27) });
    rooms.push(Room { floor: Tile::Floor1, wall: Tile::Wall4, c0: Coords::new(17, 17), c1: Coords::new(27, 27) });
    rooms.push(Room { floor: Tile::Floor1, wall: Tile::Wall2, c0: Coords::new(7, 7), c1: Coords::new(7, 22) });
    rooms.push(Room { floor: Tile::Floor1, wall: Tile::Wall2, c0: Coords::new(7, 22), c1: Coords::new(22, 22) });
    rooms.push(Room { floor: Tile::Floor1, wall: Tile::Wall2, c0: Coords::new(22, 7), c1: Coords::new(22, 22) });
    assert(rooms@ =~= room_plan());
    rooms
}

/// Every room of the plan lies, with its border, inside the level grid.
proof fn lemma_plan_fits(cells: Seq<Seq<Tile>>, i: int)
    requires
        grid_width(cells) == MAP_SIZE,
        grid_height(cells) == MAP_SIZE,
        0 <= i < ROOM_COUNT,
    ensures
        room_fits(cells, room_plan()[i].c0, room_plan()[i].c1),
{
}

/// Builds the level grid: a blank map of `MAP_SIZE` by `MAP_SIZE` tiles
/// with the rooms and corridors of the plan carved in order.
pub fn make_map() -> (map: TileMap)
    ensures
        map@ == level_cells(),
        map_shaped(map@),
        grid_width(map@) == MAP_SIZE,
        grid_height(map@) == MAP_SIZE,
{
    let mut map = TileMap::new(MAP_SIZE, MAP_SIZE);
    let rooms = level_rooms();
    let ghost blank = map@;
    assert(grid_width(blank) == MAP_SIZE && grid_height(blank) == MAP_SIZE);
    let mut i: usize = 0;
    while i < rooms.len()
        invariant
            0 <= i <= ROOM_COUNT,
            rooms@ == room_plan(),
            blank == blank_cells(MAP_SIZE as nat, MAP_SIZE as nat),
            grid_width(blank) == MAP_SIZE,
            grid_height(blank) == MAP_SIZE,
            map@ == carved_rooms(blank, room_plan(), i as nat),
            map_shaped(map@),
        decreases ROOM_COUNT - i,
    {
        let r = rooms[i];
        proof {
            lemma_carved_rooms_shape(blank, room_plan(), i as nat);
            lemma_plan_fits(map@, i as int);
        }
        add_room(&mut map, r.floor, r.wall, r.c0, r.c1);
        i = i + 1;
    }
    proof {
        lemma_carved_rooms_shape(blank, room_plan(), ROOM_COUNT as nat);
    }
    map
}

/// The tile that a level falls back on when a place is needed and none
/// was drawn: the first corner of the first room.
pub open spec fn home_tile() -> Coords {
    Coords { x: 2, y: 2 }
}

/// The home tile is a floor of the level grid: no later room covers it.
pub proof fn lemma_home_tile_is_floor()
    ensures
        in_bounds(level_cells(), home_tile().x as int, home_tile().y as int),
        level_cells()[home_tile().y as int][home_tile().x as int] == Tile::Floor1,
{
    let blank = blank_cells(MAP_SIZE as nat, MAP_SIZE as nat);
    let plan = room_plan();
    assert(in_bounds(blank, 2, 2));
    assert(carved_rooms(blank, plan, 0) == blank);
    lemma_carved_rooms_shape(blank, plan, 0);
    assert(carved_rooms(blank, plan, 1)[2][2] == Tile::Floor1);
    lemma_home_tile_stays(1);
    lemma_home_tile_stays(2);
    lemma_home_tile_stays(3);
    lemma_home_tile_stays(4);
    lemma_home_tile_stays(5);
    lemma_home_tile_stays(6);
    lemma_home_tile_stays(7);
    lemma_home_tile_stays(8);
}

proof fn lemma_home_tile_stays(n: nat)
    requires
        1 <= n < ROOM_COUNT,
        carved_rooms(blank_cells(MAP_SIZE as nat, MAP_SIZE as nat), room_plan(), n)[2][2]
            == Tile::Floor1,
    ensures
        in_bounds(carved_rooms(blank_cells(MAP_SIZE as nat, MAP_SIZE as nat), room_plan(), n + 1), 2, 2),
        carved_rooms(blank_cells(MAP_SIZE as nat, MAP_SIZE as nat), room_plan(), n + 1)[2][2]
            == Tile::Floor1,
{
    let blank = blank_cells(MAP_SIZE as nat, MAP_SIZE as nat);
    let r = room_plan()[n as int];
    let before = carved_rooms(blank, room_plan(), n);
    assert(in_bounds(blank, 2, 2));
    lemma_carved_rooms_shape(blank, room_plan(), n);
    assert(before.len() == 32);
    assert(map_shaped(blank));
    assert(before[2].len() == 32);
    assert(in_bounds(before, 2, 2));
    assert(!in_rect(2, 2, r.c0, r.c1));
    lemma_carving_keeps_floors(before, r.floor, r.wall, r.c0, r.c1, 2, 2);
    assert(carved_rooms(blank, room_plan(), n + 1) == carved(before, r.floor, r.wall, r.c0, r.c1));
}

} // verus!
