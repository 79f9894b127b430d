use labyrinth::tile::{TexId, Tile};
use labyrinth::tilemap::{Coords, TileMap};

#[test]
fn outside_the_grid_is_solid() {
    let mut map = TileMap::new(4, 3);
    map.set_tile(1, 1, Tile::Floor1);
    assert!(!map.is_solid(1, 1));
    assert!(map.is_solid(-1, 1));
    assert!(map.is_solid(1, -1));
    assert!(map.is_solid(4, 1));
    assert!(map.is_solid(1, 3));
    assert!(map.is_solid(i32::MIN, i32::MAX));
    assert!(map.is_solid(i32::MAX, i32::MIN));
}

#[test]
fn new_map_is_void() {
    let map = TileMap::new(4, 3);
    assert_eq!(map.width(), 4);
    assert_eq!(map.height(), 3);
    for y in 0..3 {
        for x in 0..4 {
            assert_eq!(map.tile(x, y), Tile::Void);
            assert!(map.is_solid(x, y));
        }
    }
}

#[test]
fn map_without_rows_or_columns_is_empty() {
    let map = TileMap::new(0, 7);
    assert_eq!(map.width(), 0);
    assert_eq!(map.height(), 0);
    assert!(map.is_solid(0, 0));
    let map = TileMap::new(7, 0);
    assert_eq!(map.width(), 0);
    assert_eq!(map.height(), 0);
}

#[test]
fn set_tile_changes_one_cell() {
    let mut map = TileMap::new(5, 4);
    map.set_tile(3, 1, Tile::Wall2);
    for y in 0..4 {
        for x in 0..5 {
            let want = if x == 3 && y == 1 { Tile::Wall2 } else { Tile::Void };
            assert_eq!(map.tile(x, y), want);
        }
    }
    map.set_tile(3, 1, Tile::Floor2);
    assert_eq!(map.tile(3, 1), Tile::Floor2);
    assert_eq!(map.tile(1, 3), Tile::Void);
}

#[test]
fn columns_and_rows_are_not_mixed_up() {
    let mut map = TileMap::new(6, 2);
    map.set_tile(5, 0, Tile::Floor1);
    assert!(!map.is_solid(5, 0));
    assert!(map.is_solid(0, 5));
    assert_eq!(map.width(), 6);
    assert_eq!(map.height(), 2);
}

#[test]
fn solidity_of_each_tile() {
    assert!(Tile::Void.is_solid());
    assert!(!Tile::Floor1.is_solid());
    assert!(!Tile::Floor2.is_solid());
    assert!(Tile::Wall1.is_solid());
    assert!(Tile::Wall2.is_solid());
    assert!(Tile::Wall3.is_solid());
    assert!(Tile::Wall4.is_solid());
}

#[test]
fn only_void_is_void() {
    assert!(Tile::Void.is_void());
    assert!(!Tile::Floor1.is_void());
    assert!(!Tile::Wall1.is_void());
    assert_eq!(Tile::default(), Tile::Void);
}

#[test]
fn texture_of_each_tile() {
    assert_eq!(Tile::Floor1.get_tex_id(), TexId { x: 0, y: 1 });
    assert_eq!(Tile::Floor2.get_tex_id(), TexId { x: 1, y: 1 });
    assert_eq!(Tile::Wall1.get_tex_id(), TexId { x: 0, y: 0 });
    assert_eq!(Tile::Wall2.get_tex_id(), TexId { x: 1, y: 0 });
    assert_eq!(Tile::Wall3.get_tex_id(), TexId { x: 2, y: 0 });
    assert_eq!(Tile::Wall4.get_tex_id(), TexId { x: 3, y: 0 });
    assert_eq!(Tile::Void.get_tex_id(), TexId { x: 1, y: 2 });
}

#[test]
fn coords_hold_what_they_are_given() {
    let c = Coords::new(3, -4);
    assert_eq!(c.x, 3);
    assert_eq!(c.y, -4);
    assert_eq!(c, Coords { x: 3, y: -4 });
}

#[test]
fn width_and_solidity_of_maps_without_tiles() {
    for (w, h) in [(0u16, 0u16), (0, 3), (3, 0)] {
        let map = TileMap::new(w, h);
        assert_eq!(map.width(), 0);
        assert_eq!(map.height(), 0);
        for (x, y) in [(0, 0), (1, 0), (0, 1), (-1, -1), (2, 2)] {
            assert!(map.is_solid(x, y));
        }
    }
}
