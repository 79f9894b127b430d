use labyrinth::audio::Sound;
use labyrinth::combat::{CreatureStats, Team};
use labyrinth::physics::MapCollisionEvent;
use labyrinth::weapon::{
    fire_weapons, Aim, Cooldown, FireMode, Projectile, ProjectileType, TexCoords, Weapon,
};

type Pos = (i32, i32, i32);

#[test]
fn damage_speed_and_frames_of_each_projectile() {
    assert_eq!(ProjectileType::BlueBlob.damage(), 3);
    assert_eq!(ProjectileType::RedSpikes.damage(), 2);
    assert_eq!(ProjectileType::Shock.damage(), 4);
    assert_eq!(ProjectileType::BlueBlob.speed(), 8);
    assert_eq!(ProjectileType::RedSpikes.speed(), 6);
    assert_eq!(ProjectileType::Shock.speed(), 2);
    assert_eq!(ProjectileType::RedSpikes.make_uv(), TexCoords { x_start: 0, x_end: 1, y: 6 });
    assert_eq!(ProjectileType::BlueBlob.make_uv(), TexCoords { x_start: 1, x_end: 2, y: 6 });
    assert_eq!(ProjectileType::Shock.make_uv(), TexCoords { x_start: 2, x_end: 5, y: 6 });
}

#[test]
fn cooldown_counts_up_to_its_duration() {
    let mut t = Cooldown::new(10);
    assert_eq!(t, Cooldown { duration: 10, elapsed: 0, finished: false, paused: false });
    t.tick(4);
    assert_eq!(t.elapsed, 4);
    assert!(!t.finished);
    t.tick(5);
    assert_eq!(t.elapsed, 9);
    assert!(!t.finished);
    t.tick(1);
    assert_eq!(t.elapsed, 10);
    assert!(t.finished);
    t.tick(100);
    assert_eq!(t.elapsed, 10);
    assert!(t.finished);
    t.reset();
    assert_eq!(t, Cooldown { duration: 10, elapsed: 0, finished: false, paused: false });
}

#[test]
fn cooldown_does_not_run_past_its_end() {
    let mut t = Cooldown::new(10);
    t.tick(u64::MAX);
    assert_eq!(t.elapsed, 10);
    assert!(t.finished);
    let mut t = Cooldown::new(u64::MAX);
    t.tick(u64::MAX - 1);
    assert!(!t.finished);
    t.tick(u64::MAX);
    assert!(t.finished);
    assert_eq!(t.elapsed, u64::MAX);
    let mut t = Cooldown::new(0);
    assert!(!t.finished);
    t.tick(0);
    assert!(t.finished);
}

#[test]
fn paused_cooldown_stands_still() {
    let mut t = Cooldown::new(10);
    t.tick(3);
    t.pause();
    t.tick(500);
    assert_eq!(t, Cooldown { duration: 10, elapsed: 3, finished: false, paused: true });
    t.reset();
    assert_eq!(t, Cooldown { duration: 10, elapsed: 0, finished: false, paused: true });
    t.unpause();
    t.tick(500);
    assert_eq!(t, Cooldown { duration: 10, elapsed: 10, finished: true, paused: false });
}

#[test]
fn new_weapon_holds_fire() {
    let w: Weapon<Pos> = Weapon::new(ProjectileType::Shock, 250);
    assert!(matches!(w.firing, FireMode::NoFire));
    assert_eq!(w.projectile, ProjectileType::Shock);
    assert_eq!(w.cooldown, Cooldown::new(250));
}

#[test]
fn order_to_fire_wakes_a_paused_cooldown() {
    let mut w: Weapon<Pos> = Weapon::new(ProjectileType::Shock, 250);
    w.cooldown.pause();
    w.set_fire_state(FireMode::NoFire);
    assert!(w.cooldown.paused);
    assert!(matches!(w.firing, FireMode::NoFire));
    w.set_fire_state(FireMode::Fire);
    assert!(!w.cooldown.paused);
    assert!(matches!(w.firing, FireMode::Fire));
    w.cooldown.pause();
    w.set_fire_state(FireMode::FireAt((1, 2, 3)));
    assert!(!w.cooldown.paused);
    assert!(matches!(w.firing, FireMode::FireAt((1, 2, 3))));
    w.set_fire_state(FireMode::NoFire);
    assert!(!w.cooldown.paused);
}

#[test]
fn projectile_of_a_weapon() {
    let w: Weapon<Pos> = Weapon::new(ProjectileType::BlueBlob, 1);
    assert_eq!(w.make_projectile(Team::Monsters), Projectile { team: Team::Monsters, damage: 3 });
    let w: Weapon<Pos> = Weapon::new(ProjectileType::RedSpikes, 1);
    assert_eq!(w.make_projectile(Team::Players), Projectile { team: Team::Players, damage: 2 });
}

#[test]
fn weapon_fires_when_the_cooldown_has_run_out() {
    let mut w: Weapon<Pos> = Weapon::new(ProjectileType::RedSpikes, 100);
    w.set_fire_state(FireMode::Fire);
    assert!(w.fire(60, Team::Players).is_none());
    assert_eq!(w.cooldown.elapsed, 60);
    let shot = w.fire(60, Team::Players).unwrap();
    assert!(matches!(shot.aim, Aim::Forward));
    assert_eq!(shot.kind, ProjectileType::RedSpikes);
    assert_eq!(shot.projectile, Projectile { team: Team::Players, damage: 2 });
    assert_eq!(shot.speed, 6);
    assert_eq!(shot.sprite, TexCoords { x_start: 0, x_end: 1, y: 6 });
    assert_eq!(shot.sound, Sound::PlayerShoot);
    assert_eq!(shot.on_collision, MapCollisionEvent::Destroy);
    // The cooldown starts anew.
    assert_eq!(w.cooldown, Cooldown::new(100));
    assert!(w.fire(99, Team::Players).is_none());
    assert!(w.fire(1, Team::Players).is_some());
}

#[test]
fn weapon_fires_at_its_target() {
    let mut w: Weapon<Pos> = Weapon::new(ProjectileType::Shock, 10);
    w.set_fire_state(FireMode::FireAt((7, 0, -2)));
    let shot = w.fire(10, Team::Monsters).unwrap();
    assert!(matches!(shot.aim, Aim::At((7, 0, -2))));
    assert_eq!(shot.projectile, Projectile { team: Team::Monsters, damage: 4 });
}

#[test]
fn weapon_that_holds_fire_stays_ready() {
    let mut w: Weapon<Pos> = Weapon::new(ProjectileType::Shock, 10);
    assert!(w.fire(50, Team::Monsters).is_none());
    assert!(w.cooldown.finished);
    assert!(w.fire(50, Team::Monsters).is_none());
    // It fires in the step in which the order comes.
    w.set_fire_state(FireMode::Fire);
    assert!(w.fire(0, Team::Monsters).is_some());
    assert!(!w.cooldown.finished);
}

#[test]
fn every_weapon_is_served_in_a_step() {
    let mut weapons: Vec<Weapon<Pos>> = vec![
        Weapon::new(ProjectileType::RedSpikes, 10),
        Weapon::new(ProjectileType::BlueBlob, 10),
        Weapon::new(ProjectileType::Shock, 30),
        Weapon::new(ProjectileType::Shock, 5),
    ];
    weapons[0].set_fire_state(FireMode::Fire);
    weapons[2].set_fire_state(FireMode::Fire);
    weapons[3].set_fire_state(FireMode::FireAt((1, 1, 1)));
    let stats = vec![
        CreatureStats::new(Team::Players, 100),
        CreatureStats::new(Team::Monsters, 10),
        CreatureStats::new(Team::Monsters, 10),
        CreatureStats::new(Team::Monsters, 10),
    ];
    let shots = fire_weapons(&mut weapons, &stats, 20);
    assert_eq!(shots.len(), 2);
    assert_eq!(shots[0].shooter, 0);
    assert_eq!(shots[0].shot.projectile, Projectile { team: Team::Players, damage: 2 });
    assert!(matches!(shots[0].shot.aim, Aim::Forward));
    assert_eq!(shots[1].shooter, 3);
    assert_eq!(shots[1].shot.projectile, Projectile { team: Team::Monsters, damage: 4 });
    assert!(matches!(shots[1].shot.aim, Aim::At((1, 1, 1))));
    assert_eq!(weapons[0].cooldown, Cooldown::new(10));
    assert_eq!(weapons[1].cooldown, Cooldown { duration: 10, elapsed: 10, finished: true, paused: false });
    assert_eq!(weapons[2].cooldown, Cooldown { duration: 30, elapsed: 20, finished: false, paused: false });
    assert_eq!(weapons[3].cooldown, Cooldown::new(5));
    let shots = fire_weapons(&mut weapons, &stats, 10);
    assert_eq!(shots.iter().map(|f| f.shooter).collect::<Vec<_>>(), vec![0, 2, 3]);
    let mut none: Vec<Weapon<Pos>> = Vec::new();
    assert!(fire_weapons(&mut none, &vec![], 10).is_empty());
}
