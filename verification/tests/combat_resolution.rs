use labyrinth::audio::Sound;
use labyrinth::combat::{CreatureStats, Team};
use labyrinth::game::{GameInfo, GameState, NextState};
use labyrinth::weapon::{check_projectile_creature_collisions, Projectile, KILL_SCORE};

fn monster(hp: i16) -> CreatureStats {
    CreatureStats { team: Team::Monsters, hp, hp_max: 10 }
}

fn player(hp: i16) -> CreatureStats {
    CreatureStats { team: Team::Players, hp, hp_max: 100 }
}

fn shot(team: Team, damage: i16) -> Projectile {
    Projectile { team, damage }
}

struct Outcome {
    targets: Vec<CreatureStats>,
    info: GameInfo,
    next: Option<GameState>,
    spent: Vec<usize>,
    slain: Vec<usize>,
    sounds: Vec<Sound>,
}

fn fight(projectiles: Vec<Projectile>, targets: Vec<CreatureStats>, in_range: Vec<Vec<bool>>) -> Outcome {
    let mut targets = targets;
    let mut info = GameInfo::default();
    let mut next = NextState::new();
    let report =
        check_projectile_creature_collisions(&projectiles, &mut targets, &in_range, &mut info, &mut next);
    Outcome {
        targets,
        info,
        next: next.pending,
        spent: report.spent,
        slain: report.slain,
        sounds: report.sounds,
    }
}

#[test]
fn a_hit_takes_hit_points() {
    let out = fight(
        vec![shot(Team::Players, 3)],
        vec![player(100), monster(10), monster(10)],
        vec![vec![true, true, true]],
    );
    assert_eq!(out.targets, vec![player(100), monster(7), monster(10)]);
    assert_eq!(out.spent, vec![0]);
    assert!(out.slain.is_empty());
    assert_eq!(out.sounds, vec![Sound::MonsterHurt]);
    assert_eq!(out.info, GameInfo::default());
    assert_eq!(out.next, None);
}

#[test]
fn no_friendly_fire() {
    let out = fight(
        vec![shot(Team::Players, 4), shot(Team::Players, 4)],
        vec![player(1), player(50)],
        vec![vec![true, true], vec![true, true]],
    );
    assert_eq!(out.targets, vec![player(1), player(50)]);
    assert!(out.spent.is_empty());
    assert!(out.sounds.is_empty());
    assert_eq!(out.next, None);

    let out = fight(
        vec![shot(Team::Monsters, 4)],
        vec![monster(1), monster(2)],
        vec![vec![true, true]],
    );
    assert_eq!(out.targets, vec![monster(1), monster(2)]);
    assert!(out.spent.is_empty());
    assert!(out.slain.is_empty());
    assert_eq!(out.info.score, 0);
}

#[test]
fn out_of_range_is_a_miss() {
    let out = fight(
        vec![shot(Team::Players, 3)],
        vec![monster(10), monster(10)],
        vec![vec![false, false]],
    );
    assert_eq!(out.targets, vec![monster(10), monster(10)]);
    assert!(out.spent.is_empty());
    assert!(out.sounds.is_empty());
}

#[test]
fn a_projectile_hits_one_creature_only() {
    let out = fight(
        vec![shot(Team::Players, 3)],
        vec![monster(10), monster(10), monster(10)],
        vec![vec![false, true, true]],
    );
    assert_eq!(out.targets, vec![monster(10), monster(7), monster(10)]);
    assert_eq!(out.spent, vec![0]);
    assert_eq!(out.sounds.len(), 1);
}

#[test]
fn killing_a_monster_scores_and_removes_it() {
    let out = fight(
        vec![shot(Team::Players, 2)],
        vec![player(100), monster(1), monster(10)],
        vec![vec![true, true, true]],
    );
    assert_eq!(out.targets, vec![player(100), monster(-1), monster(10)]);
    assert_eq!(out.slain, vec![1]);
    assert_eq!(out.spent, vec![0]);
    assert_eq!(out.info.score, 10);
    assert_eq!(KILL_SCORE, 10);
    assert_eq!(out.sounds, vec![Sound::MonsterHurt]);
    // Another monster is left, so the level goes on, and the game is not over.
    assert_eq!(out.next, None);
}

#[test]
fn hit_points_of_exactly_zero_kill() {
    let out = fight(vec![shot(Team::Players, 3)], vec![monster(3), monster(9)], vec![vec![true, true]]);
    assert_eq!(out.targets[0].hp, 0);
    assert_eq!(out.slain, vec![0]);
    assert_eq!(out.info.score, 10);
}

#[test]
fn killing_the_last_monster_completes_the_level() {
    let out = fight(
        vec![shot(Team::Players, 2)],
        vec![player(100), monster(1)],
        vec![vec![true, true]],
    );
    assert_eq!(out.slain, vec![1]);
    assert_eq!(out.info.score, 10);
    assert_eq!(out.next, Some(GameState::NextLevel));
}

#[test]
fn death_of_the_player_ends_the_game() {
    let out = fight(
        vec![shot(Team::Monsters, 4)],
        vec![player(1), monster(10)],
        vec![vec![true, true]],
    );
    assert_eq!(out.targets, vec![player(-3), monster(10)]);
    assert_eq!(out.next, Some(GameState::GameOver));
    // The player is not removed and nothing is scored.
    assert!(out.slain.is_empty());
    assert_eq!(out.info.score, 0);
    assert_eq!(out.spent, vec![0]);
    assert_eq!(out.sounds, vec![Sound::PlayerHurt]);
    assert_eq!(out.info.hp, -3);
    assert_eq!(out.info.hp_max, 100);
}

#[test]
fn a_hurt_player_is_noted_for_the_health_bar() {
    let out = fight(vec![shot(Team::Monsters, 4)], vec![player(50)], vec![vec![true]]);
    assert_eq!(out.targets, vec![player(46)]);
    assert_eq!(out.info.hp, 46);
    assert_eq!(out.info.hp_max, 100);
    assert_eq!(out.next, None);
    assert_eq!(out.sounds, vec![Sound::PlayerHurt]);
}

#[test]
fn a_dead_monster_is_not_hit_again() {
    let out = fight(
        vec![shot(Team::Players, 4), shot(Team::Players, 4)],
        vec![monster(2), monster(10)],
        vec![vec![true, true], vec![true, true]],
    );
    // The second projectile flies past the monster that the first one killed.
    assert_eq!(out.targets, vec![monster(-2), monster(6)]);
    assert_eq!(out.slain, vec![0]);
    assert_eq!(out.spent, vec![0, 1]);
    assert_eq!(out.info.score, 10);
    assert_eq!(out.next, None);
}

#[test]
fn projectiles_fly_in_order() {
    let out = fight(
        vec![shot(Team::Players, 2), shot(Team::Monsters, 3), shot(Team::Players, 4)],
        vec![player(100), monster(5)],
        vec![vec![true, true], vec![true, true], vec![true, true]],
    );
    assert_eq!(out.targets, vec![player(97), monster(-1)]);
    assert_eq!(out.spent, vec![0, 1, 2]);
    assert_eq!(out.slain, vec![1]);
    assert_eq!(out.sounds, vec![Sound::MonsterHurt, Sound::PlayerHurt, Sound::MonsterHurt]);
    assert_eq!(out.info.score, 10);
    assert_eq!(out.info.hp, 97);
    assert_eq!(out.next, Some(GameState::NextLevel));
}

#[test]
fn the_later_request_stands() {
    // The player dies, then the last monster: the level is complete.
    let out = fight(
        vec![shot(Team::Monsters, 4), shot(Team::Players, 4)],
        vec![player(1), monster(1)],
        vec![vec![true, true], vec![true, true]],
    );
    assert_eq!(out.next, Some(GameState::NextLevel));
    // The last monster dies, then the player: the game is over.
    let out = fight(
        vec![shot(Team::Players, 4), shot(Team::Monsters, 4)],
        vec![player(1), monster(1)],
        vec![vec![true, true], vec![true, true]],
    );
    assert_eq!(out.next, Some(GameState::GameOver));
    assert_eq!(out.info.score, 10);
}

#[test]
fn a_creature_at_one_hit_point_dies_of_any_damage() {
    for damage in 1..=4 {
        let out = fight(vec![shot(Team::Players, damage)], vec![monster(1), monster(5)], vec![vec![true, true]]);
        assert_eq!(out.slain, vec![0]);
        assert_eq!(out.info.score, 10);
        assert_ne!(out.next, Some(GameState::GameOver));

        let out = fight(vec![shot(Team::Monsters, damage)], vec![player(1)], vec![vec![true]]);
        assert_eq!(out.next, Some(GameState::GameOver));
        assert!(out.slain.is_empty());
        assert_eq!(out.info.score, 0);
    }
}

#[test]
fn nothing_to_fight() {
    let out = fight(vec![], vec![monster(3)], vec![]);
    assert_eq!(out.targets, vec![monster(3)]);
    assert!(out.spent.is_empty());
    let out = fight(vec![shot(Team::Players, 1)], vec![], vec![vec![]]);
    assert!(out.targets.is_empty());
    assert!(out.spent.is_empty());
    assert_eq!(out.next, None);
}

#[test]
fn creature_at_full_health() {
    let c = CreatureStats::new(Team::Monsters, 12);
    assert_eq!(c, CreatureStats { team: Team::Monsters, hp: 12, hp_max: 12 });
    assert!(c.is_alive());
    assert!(!monster(0).is_alive());
    assert!(!monster(-1).is_alive());
}

#[test]
fn files_of_the_sounds() {
    assert_eq!(Sound::PickupHeal.file_name(), "pickup_heal.ogg");
    assert_eq!(Sound::PickupCoins.file_name(), "pickup_coins.ogg");
    assert_eq!(Sound::PickupKey.file_name(), "pickup_key.ogg");
    assert_eq!(Sound::PlayerShoot.file_name(), "audio/player_shoot.ogg");
    assert_eq!(Sound::PlayerHurt.file_name(), "audio/player_hurt.ogg");
    assert_eq!(Sound::MonsterHurt.file_name(), "audio/monster_hurt.ogg");
}

#[test]
fn own_team_is_safe_at_any_distance_and_at_any_numbers() {
    // Nothing is subtracted for a projectile and a creature of one team,
    // so no number can leave its type, however extreme.
    for near in [true, false] {
        let mut targets = vec![
            CreatureStats { team: Team::Players, hp: i16::MIN, hp_max: i16::MAX },
            CreatureStats { team: Team::Players, hp: 1, hp_max: 100 },
        ];
        let before = targets.clone();
        let mut info = GameInfo { score: i32::MAX, hp: 77, hp_max: 99, ..GameInfo::default() };
        let mut next = NextState::new();
        let projectiles = vec![shot(Team::Players, i16::MAX), shot(Team::Players, -5)];
        let in_range = vec![vec![near, near], vec![near, near]];
        let report = check_projectile_creature_collisions(
            &projectiles,
            &mut targets,
            &in_range,
            &mut info,
            &mut next,
        );
        assert_eq!(targets, before);
        assert!(report.spent.is_empty());
        assert!(report.slain.is_empty());
        assert!(report.sounds.is_empty());
        assert_eq!(next.pending, None);
        assert_eq!(info, GameInfo { score: i32::MAX, hp: 77, hp_max: 99, ..GameInfo::default() });
    }
}

#[test]
fn only_threats_count_against_the_numbers() {
    // The monster out of range sits at the bottom of the number range, and
    // the score at its top: the one hit that happens kills nobody.
    let mut targets = vec![monster(i16::MIN), monster(10), player(5)];
    let mut info = GameInfo { score: i32::MAX, ..GameInfo::default() };
    let mut next = NextState::new();
    let projectiles = vec![shot(Team::Monsters, 4), shot(Team::Players, 3)];
    let in_range = vec![vec![true, true, true], vec![false, false, true]];
    let report =
        check_projectile_creature_collisions(&projectiles, &mut targets, &in_range, &mut info, &mut next);
    assert_eq!(targets, vec![monster(i16::MIN), monster(10), player(1)]);
    assert_eq!(report.spent, vec![0]);
    assert_eq!(report.sounds, vec![Sound::PlayerHurt]);
    assert_eq!(info.score, i32::MAX);
    assert_eq!(info.hp, 1);
    assert_eq!(next.pending, None);
}
