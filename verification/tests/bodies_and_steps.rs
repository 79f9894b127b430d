use labyrinth::physics::{area_blocked, do_physics, resolve_motion, BodyStep, MapCollisionEvent, Motion};
use labyrinth::schedule::{tick_order, SimStep, STEP_COUNT};
use labyrinth::tile::Tile;
use labyrinth::tilemap::{Coords, TileMap};

fn body(on_collision: MapCollisionEvent, moving: bool, blocked: bool) -> BodyStep {
    BodyStep { on_collision, moving, blocked }
}

#[test]
fn a_body_at_rest_stays() {
    for on_collision in [MapCollisionEvent::Stop, MapCollisionEvent::Destroy] {
        assert_eq!(resolve_motion(body(on_collision, false, false)), Motion::Rest);
        assert_eq!(resolve_motion(body(on_collision, false, true)), Motion::Rest);
    }
}

#[test]
fn a_free_body_advances() {
    assert_eq!(resolve_motion(body(MapCollisionEvent::Stop, true, false)), Motion::Advance);
    assert_eq!(resolve_motion(body(MapCollisionEvent::Destroy, true, false)), Motion::Advance);
}

#[test]
fn a_blocked_body_halts_or_is_removed() {
    assert_eq!(resolve_motion(body(MapCollisionEvent::Stop, true, true)), Motion::Halt);
    assert_eq!(resolve_motion(body(MapCollisionEvent::Destroy, true, true)), Motion::Remove);
}

#[test]
fn bodies_do_not_depend_on_each_other() {
    let bodies = vec![
        body(MapCollisionEvent::Stop, true, true),
        body(MapCollisionEvent::Destroy, true, true),
        body(MapCollisionEvent::Stop, true, false),
        body(MapCollisionEvent::Destroy, false, true),
    ];
    let motions = do_physics(&bodies);
    assert_eq!(motions, vec![Motion::Halt, Motion::Remove, Motion::Advance, Motion::Rest]);
    let mut turned = bodies.clone();
    turned.reverse();
    let mut back = do_physics(&turned);
    back.reverse();
    assert_eq!(back, motions);
    assert!(do_physics(&vec![]).is_empty());
}

#[test]
fn an_area_is_blocked_by_any_solid_tile() {
    let mut map = TileMap::new(8, 8);
    for y in 1..7 {
        for x in 1..7 {
            map.set_tile(x, y, Tile::Floor1);
        }
    }
    map.set_tile(4, 4, Tile::Wall1);
    assert!(!area_blocked(&map, Coords::new(1, 1), Coords::new(3, 6)));
    assert!(!area_blocked(&map, Coords::new(1, 1), Coords::new(6, 3)));
    assert!(area_blocked(&map, Coords::new(1, 1), Coords::new(6, 6)));
    assert!(area_blocked(&map, Coords::new(4, 4), Coords::new(4, 4)));
    assert!(area_blocked(&map, Coords::new(3, 3), Coords::new(4, 4)));
    assert!(!area_blocked(&map, Coords::new(5, 5), Coords::new(6, 6)));
    // The edge of the map and everything beyond it is solid.
    assert!(area_blocked(&map, Coords::new(0, 1), Coords::new(2, 2)));
    assert!(area_blocked(&map, Coords::new(5, 5), Coords::new(7, 6)));
    assert!(area_blocked(&map, Coords::new(5, 5), Coords::new(6, 8)));
    assert!(area_blocked(&map, Coords::new(-3, -3), Coords::new(-1, -1)));
    assert!(area_blocked(&map, Coords::new(i32::MIN, 2), Coords::new(i32::MAX, 2)));
    // An area without tiles is never blocked.
    assert!(!area_blocked(&map, Coords::new(4, 4), Coords::new(3, 4)));
    assert!(!area_blocked(&map, Coords::new(4, 5), Coords::new(4, 4)));
}

#[test]
fn the_steps_of_a_tick_in_order() {
    let order = tick_order();
    assert_eq!(
        order,
        vec![
            SimStep::PlayerInput,
            SimStep::AiLos,
            SimStep::AiFire,
            SimStep::FireWeapons,
            SimStep::Physics,
            SimStep::Combat,
            SimStep::Pickups,
            SimStep::Render,
        ]
    );
    assert_eq!(order.len(), STEP_COUNT);
    for (i, step) in order.iter().enumerate() {
        assert_eq!(step.rank() as usize, i);
    }
}

#[test]
fn a_step_runs_before_those_that_read_it() {
    assert!(SimStep::PlayerInput.runs_before(&SimStep::AiLos));
    assert!(SimStep::AiLos.runs_before(&SimStep::AiFire));
    assert!(SimStep::AiFire.runs_before(&SimStep::FireWeapons));
    assert!(SimStep::FireWeapons.runs_before(&SimStep::Physics));
    assert!(SimStep::Physics.runs_before(&SimStep::Combat));
    assert!(SimStep::Combat.runs_before(&SimStep::Pickups));
    assert!(SimStep::Pickups.runs_before(&SimStep::Render));
    assert!(!SimStep::Combat.runs_before(&SimStep::Physics));
    assert!(!SimStep::AiFire.runs_before(&SimStep::AiFire));
}
