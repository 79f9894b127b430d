use labyrinth::ai::{ai_fire, ai_los, AiState};
use labyrinth::mapgen::{add_room, make_map};
use labyrinth::tile::Tile;
use labyrinth::tilemap::{Coords, TileMap};
use labyrinth::weapon::{Cooldown, FireMode, ProjectileType, Weapon};

fn room(width: u16, height: u16) -> TileMap {
    let mut map = TileMap::new(width, height);
    add_room(
        &mut map,
        Tile::Floor1,
        Tile::Wall1,
        Coords::new(1, 1),
        Coords::new(width as i32 - 2, height as i32 - 2),
    );
    map
}

#[test]
fn sight_across_an_empty_room() {
    let map = room(12, 9);
    for (a, b) in [((1, 1), (10, 7)), ((10, 1), (1, 7)), ((1, 4), (10, 4)), ((5, 1), (5, 7)), ((3, 3), (3, 3))] {
        assert!(ai_los(&map, Coords::new(a.0, a.1), Coords::new(b.0, b.1)));
        assert!(ai_los(&map, Coords::new(b.0, b.1), Coords::new(a.0, a.1)));
    }
}

#[test]
fn a_wall_blocks_the_sight() {
    let mut map = room(12, 9);
    for y in 1..=7 {
        map.set_tile(6, y, Tile::Wall2);
    }
    assert!(!ai_los(&map, Coords::new(2, 4), Coords::new(10, 4)));
    assert!(!ai_los(&map, Coords::new(10, 2), Coords::new(1, 7)));
    assert!(ai_los(&map, Coords::new(2, 1), Coords::new(5, 7)));
    assert!(ai_los(&map, Coords::new(7, 1), Coords::new(10, 7)));
    // A gap in the wall lets the straight line through, and no other.
    map.set_tile(6, 4, Tile::Floor1);
    assert!(ai_los(&map, Coords::new(2, 4), Coords::new(10, 4)));
    assert!(!ai_los(&map, Coords::new(2, 1), Coords::new(10, 1)));
}

#[test]
fn a_single_pillar_blocks_the_line_through_it() {
    let mut map = room(12, 12);
    map.set_tile(5, 5, Tile::Wall3);
    assert!(!ai_los(&map, Coords::new(1, 1), Coords::new(9, 9)));
    assert!(!ai_los(&map, Coords::new(5, 1), Coords::new(5, 10)));
    assert!(!ai_los(&map, Coords::new(1, 5), Coords::new(10, 5)));
    assert!(ai_los(&map, Coords::new(1, 2), Coords::new(10, 2)));
    assert!(ai_los(&map, Coords::new(1, 1), Coords::new(10, 2)));
}

#[test]
fn the_line_steps_along_the_longer_axis() {
    // From (1, 1) to (7, 3) the line crosses (2,1) (3,2) (4,2) (5,2) (6,3).
    let on_line = [(2, 1), (3, 2), (4, 2), (5, 2), (6, 3)];
    let off_line = [(2, 2), (3, 1), (4, 1), (4, 3), (5, 3), (6, 2), (5, 1), (3, 3)];
    for p in on_line {
        let mut map = room(10, 6);
        map.set_tile(p.0, p.1, Tile::Wall1);
        assert!(!ai_los(&map, Coords::new(1, 1), Coords::new(7, 3)), "{:?}", p);
    }
    for p in off_line {
        let mut map = room(10, 6);
        map.set_tile(p.0, p.1, Tile::Wall1);
        assert!(ai_los(&map, Coords::new(1, 1), Coords::new(7, 3)), "{:?}", p);
    }
}

#[test]
fn no_sight_from_or_into_solid_or_the_outside() {
    let map = room(8, 8);
    assert!(!ai_los(&map, Coords::new(0, 0), Coords::new(3, 3)));
    assert!(!ai_los(&map, Coords::new(3, 3), Coords::new(7, 3)));
    assert!(!ai_los(&map, Coords::new(3, 3), Coords::new(-5, 3)));
    assert!(!ai_los(&map, Coords::new(i32::MIN, i32::MAX), Coords::new(3, 3)));
    assert!(!ai_los(&map, Coords::new(3, 3), Coords::new(i32::MAX, i32::MIN)));
    assert!(!ai_los(&map, Coords::new(0, 0), Coords::new(0, 0)));
    assert!(!ai_los(&TileMap::new(0, 0), Coords::new(0, 0), Coords::new(0, 0)));
}

#[test]
fn sight_in_the_level() {
    let map = make_map();
    // Along the first room.
    assert!(ai_los(&map, Coords::new(2, 2), Coords::new(12, 12)));
    // Down the western corridor.
    assert!(ai_los(&map, Coords::new(7, 7), Coords::new(7, 22)));
    // From the first room into the south eastern one, through walls.
    assert!(!ai_los(&map, Coords::new(3, 3), Coords::new(25, 25)));
}

#[test]
fn a_monster_that_sees_the_player_fires() {
    assert_eq!(AiState::Idle.look(true), AiState::Firing);
    assert_eq!(AiState::Aware.look(true), AiState::Firing);
    assert_eq!(AiState::Firing.look(true), AiState::Firing);
}

#[test]
fn a_monster_that_lost_sight_stays_aware() {
    assert_eq!(AiState::Idle.look(false), AiState::Idle);
    assert_eq!(AiState::Aware.look(false), AiState::Aware);
    assert_eq!(AiState::Firing.look(false), AiState::Aware);
}

#[test]
fn the_weapon_follows_the_sight() {
    let mut weapon: Weapon<(i32, i32)> = Weapon::new(ProjectileType::BlueBlob, 500);
    weapon.cooldown.pause();
    let state = ai_fire(AiState::Idle, false, (3, 4), &mut weapon);
    assert_eq!(state, AiState::Idle);
    assert!(matches!(weapon.firing, FireMode::NoFire));
    assert!(weapon.cooldown.paused);

    let state = ai_fire(state, true, (3, 4), &mut weapon);
    assert_eq!(state, AiState::Firing);
    assert!(matches!(weapon.firing, FireMode::FireAt((3, 4))));
    assert!(!weapon.cooldown.paused);

    let state = ai_fire(state, true, (5, 6), &mut weapon);
    assert_eq!(state, AiState::Firing);
    assert!(matches!(weapon.firing, FireMode::FireAt((5, 6))));

    let state = ai_fire(state, false, (5, 6), &mut weapon);
    assert_eq!(state, AiState::Aware);
    assert!(matches!(weapon.firing, FireMode::NoFire));

    let state = ai_fire(state, true, (7, 8), &mut weapon);
    assert_eq!(state, AiState::Firing);
    assert!(matches!(weapon.firing, FireMode::FireAt((7, 8))));
    assert_eq!(weapon.cooldown, Cooldown::new(500));
    assert_eq!(weapon.projectile, ProjectileType::BlueBlob);
}
