//! Weapons, the projectiles they fire, and what projectiles do to creatures.

use vstd::prelude::*;
use crate::audio::Sound;
use crate::combat::{CreatureStats, Team};
use crate::game::{GameInfo, GameState, NextState};
use crate::physics::MapCollisionEvent;

verus! {

/// The kinds of projectile.
#[derive(Copy, Clone, PartialEq, Eq, Structural, Debug)]
pub enum ProjectileType {
    RedSpikes,
    BlueBlob,
    Shock,
}

/// Where a projectile is drawn from: the frames `x_start..x_end` of row
/// `y` of the sprite sheet.
#[derive(Copy, Clone, PartialEq, Eq, Structural, Debug)]
pub struct TexCoords {
    pub x_start: u8,
    pub x_end: u8,
    pub y: u8,
}

impl ProjectileType {
    /// Hit points that a hit takes.
    pub open spec fn damage_of(self) -> i16 {
        match self {
            ProjectileType::BlueBlob => 3,
            ProjectileType::RedSpikes => 2,
            ProjectileType::Shock => 4,
        }
    }

    /// Speed of flight in tiles per second.
    pub open spec fn speed_of(self) -> i32 {
        match self {
            ProjectileType::BlueBlob => 8,
            ProjectileType::RedSpikes => 6,
            ProjectileType::Shock => 2,
        }
    }

    /// Frames of the projectile's animation.
    pub open spec fn uv_of(self) -> TexCoords {
        match self {
            ProjectileType::RedSpikes => TexCoords { x_start: 0, x_end: 1, y: 6 },
            ProjectileType::BlueBlob => TexCoords { x_start: 1, x_end: 2, y: 6 },
            ProjectileType::Shock => TexCoords { x_start: 2, x_end: 5, y: 6 },
        }
    }

    pub fn damage(&self) -> (d: i16)
        ensures
            d == self.damage_of(),
            2 <= d <= 4,
    {
        match self {
            ProjectileType::BlueBlob => 3,
            ProjectileType::RedSpikes => 2,
            ProjectileType::Shock => 4,
        }
    }

    pub fn speed(&self) -> (s: i32)
        ensures
            s == self.speed_of(),
    {
        match self {
            ProjectileType::BlueBlob => 8,
            ProjectileType::RedSpikes => 6,
            ProjectileType::Shock => 2,
        }
    }

    pub fn make_uv(&self) -> (uv: TexCoords)
        ensures
            uv == self.uv_of(),
    {
        match self {
            ProjectileType::RedSpikes => TexCoords { x_start: 0, x_end: 1, y: 6 },
            ProjectileType::BlueBlob => TexCoords { x_start: 1, x_end: 2, y: 6 },
            ProjectileType::Shock => TexCoords { x_start: 2, x_end: 5, y: 6 },
        }
    }
}

/// What a weapon is told to do. `P` is the type of a position in the
/// world; the simulation hands positions on and never looks into them.
#[derive(Copy, Clone, Debug)]
pub enum FireMode<P> {
    /// Hold fire.
    NoFire,
    /// Fire the way the wielder faces.
    Fire,
    /// Fire at a position.
    FireAt(P),
}

/// Where a shot goes.
#[derive(Copy, Clone, Debug)]
pub enum Aim<P> {
    Forward,
    At(P),
}

/// A timer that runs once: it counts the time that passes, in
/// nanoseconds, until `duration` is reached, and then stays finished until
/// it is reset. While paused it does not count.
#[derive(Copy, Clone, PartialEq, Eq, Structural, Debug)]
pub struct Cooldown {
    pub duration: u64,
    pub elapsed: u64,
    pub finished: bool,
    pub paused: bool,
}

impl Cooldown {
    /// The timer after `delta` nanoseconds have passed.
    pub open spec fn ticked(self, delta: u64) -> Cooldown {
        if self.paused || self.finished {
            self
        } else if self.elapsed + delta >= self.duration {
            Cooldown { elapsed: self.duration, finished: true, ..self }
        } else {
            Cooldown { elapsed: (self.elapsed + delta) as u64, ..self }
        }
    }

    /// The timer set back to its start. Whether it is paused stays.
    pub open spec fn rewound(self) -> Cooldown {
        Cooldown { elapsed: 0, finished: false, ..self }
    }

    /// A running timer of `duration` nanoseconds with no time on it.
    pub fn new(duration: u64) -> (timer: Cooldown)
        ensures
            timer == (Cooldown { duration, elapsed: 0, finished: false, paused: false }),
    {
        Cooldown { duration, elapsed: 0, finished: false, paused: false }
    }

    /// Lets `delta` nanoseconds pass.
    pub fn tick(&mut self, delta: u64)
        ensures
            *final(self) == old(self).ticked(delta),
    {
        if self.paused || self.finished {
            return ;
        }
        if self.elapsed >= self.duration || delta >= self.duration - self.elapsed {
            self.elapsed = self.duration;
            self.finished = true;
        } else {
            self.elapsed = self.elapsed + delta;
        }
    }

    pub fn reset(&mut self)
        ensures
            *final(self) == old(self).rewound(),
    {
        self.elapsed = 0;
        self.finished = false;
    }

    pub fn pause(&mut self)
        ensures
            *final(self) == (Cooldown { paused: true, ..*old(self) }),
    {
        self.paused = true;
    }

    pub fn unpause(&mut self)
        ensures
            *final(self) == (Cooldown { paused: false, ..*old(self) }),
    {
        self.paused = false;
    }
}

/// A projectile in flight: whose it is and what it takes from whom it hits.
#[derive(Copy, Clone, PartialEq, Eq, Structural, Debug)]
pub struct Projectile {
    pub team: Team,
    pub damage: i16,
}

/// Size of a projectile's sprite, in hundredths of a tile.
pub const PROJECTILE_SIZE: u8 = 10;

/// A projectile is within the hit radius of a creature when the two are
/// at most this far apart, in hundredths of a tile.
pub const HIT_RADIUS: u8 = 100;

/// A projectile to be put into the world at the place of its shooter: where
/// it flies and how fast, in tiles per second, how it looks and sounds,
/// and what becomes of it at a wall.
#[derive(Copy, Clone, Debug)]
pub struct Shot<P> {
    pub aim: Aim<P>,
    pub kind: ProjectileType,
    pub projectile: Projectile,
    pub speed: i32,
    pub sprite: TexCoords,
    pub sound: Sound,
    pub on_collision: MapCollisionEvent,
}

/// The shot of a weapon that fires projectiles of `kind` for `team`.
pub open spec fn shot_of<P>(aim: Aim<P>, kind: ProjectileType, team: Team) -> Shot<P> {
    Shot {
        aim,
        kind,
        projectile: Projectile { team, damage: kind.damage_of() },
        speed: kind.speed_of(),
        sprite: kind.uv_of(),
        sound: Sound::PlayerShoot,
        on_collision: MapCollisionEvent::Destroy,
    }
}

/// A weapon in the hands of a creature.
#[derive(Copy, Clone, Debug)]
pub struct Weapon<P> {
    pub firing: FireMode<P>,
    pub projectile: ProjectileType,
    pub cooldown: Cooldown,
}

impl<P: Copy> Weapon<P> {
    /// A weapon that holds fire and can fire every `fire_period`
    /// nanoseconds.
    pub fn new(projectile: ProjectileType, fire_period: u64) -> (weapon: Weapon<P>)
        ensures
            weapon.firing is NoFire,
            weapon.projectile == projectile,
            weapon.cooldown == (Cooldown {
                duration: fire_period,
                elapsed: 0,
                finished: false,
                paused: false,
            }),
    {
        Weapon { projectile, cooldown: Cooldown::new(fire_period), firing: FireMode::NoFire }
    }

    /// Tells the weapon what to do. An order to fire wakes a paused cooldown.
    pub fn set_fire_state(&mut self, firing: FireMode<P>)
        ensures
            final(self).firing == firing,
            final(self).projectile == old(self).projectile,
            final(self).cooldown == (Cooldown {
                paused: old(self).cooldown.paused && firing is NoFire,
                ..old(self).cooldown
            }),
    {
        self.firing = firing;
        let holds = match firing {
            FireMode::NoFire => true,
            _ => false,
        };
        if self.cooldown.paused && !holds {
            self.cooldown.unpause();
        }
    }

    /// The projectile that this weapon fires for `team`.
    pub fn make_projectile(&self, team: Team) -> (p: Projectile)
        ensures
            p == (Projectile { team, damage: self.projectile.damage_of() }),
    {
        Projectile { team, damage: self.projectile.damage() }
    }

    /// The shot that the weapon gives off when `delta` nanoseconds pass, if
    /// any: one is due when the cooldown has run out and the weapon is
    /// told to fire.
    pub open spec fn shot_after(self, delta: u64, team: Team) -> Option<Shot<P>> {
        if !self.cooldown.ticked(delta).finished {
            None
        } else {
            match self.firing {
                FireMode::NoFire => None,
                FireMode::Fire => Some(shot_of(Aim::Forward, self.projectile, team)),
                FireMode::FireAt(target) => Some(shot_of(Aim::At(target), self.projectile, team)),
            }
        }
    }

    /// The weapon after `delta` nanoseconds: the cooldown has moved on,
    /// and starts anew if a shot went off.
    pub open spec fn after(self, delta: u64) -> Weapon<P> {
        let cooldown = self.cooldown.ticked(delta);
        if cooldown.finished && !(self.firing is NoFire) {
            Weapon { cooldown: cooldown.rewound(), ..self }
        } else {
            Weapon { cooldown, ..self }
        }
    }

    /// Lets `delta` nanoseconds pass for a weapon wielded by `team`, and
    /// fires it when it is due.
    pub fn fire(&mut self, delta: u64, team: Team) -> (shot: Option<Shot<P>>)
        ensures
            shot == old(self).shot_after(delta, team),
            *final(self) == old(self).after(delta),
    {
        self.cooldown.tick(delta);
        if !self.cooldown.finished {
            return None;
        }
        let aim = match self.firing {
            FireMode::NoFire => {
                return None;
            },
            FireMode::Fire => Aim::Forward,
            FireMode::FireAt(target) => Aim::At(target),
        };
        self.cooldown.reset();
        Some(
            Shot {
                aim,
                kind: self.projectile,
                projectile: self.make_projectile(team),
                speed: self.projectile.speed(),
                sprite: self.projectile.make_uv(),
                sound: Sound::PlayerShoot,
                on_collision: MapCollisionEvent::Destroy,
            },
        )
    }
}

/// A shot together with the place of its weapon in the list.
#[derive(Copy, Clone, Debug)]
pub struct Fired<P> {
    pub shooter: usize,
    pub shot: Shot<P>,
}

/// The shots that the first `n` weapons give off when `delta` nanoseconds
/// pass, in the order of the weapons.
pub open spec fn shots_fired<P: Copy>(
    weapons: Seq<Weapon<P>>,
    stats: Seq<CreatureStats>,
    delta: u64,
    n: nat,
) -> Seq<Fired<P>>
    decreases n,
{
    if n == 0 {
        Seq::empty()
    } else {
        let before = shots_fired(weapons, stats, delta, (n - 1) as nat);
        match weapons[n - 1].shot_after(delta, stats[n - 1].team) {
            Some(shot) => before.push(Fired { shooter: (n - 1) as usize, shot }),
            None => before,
        }
    }
}

/// Lets `delta` nanoseconds pass for every weapon and collects the shots
/// that go off. `stats[i]` belongs to the creature that wields
/// `weapons[i]`. Every shot is to be put into the world at the place of
/// its shooter and is heard as `Sound::PlayerShoot`.
pub fn fire_weapons<P: Copy>(
    weapons: &mut Vec<Weapon<P>>,
    stats: &Vec<CreatureStats>,
    delta: u64,
) -> (shots: Vec<Fired<P>>)
    requires
        old(weapons).len() == stats.len(),
    ensures
        final(weapons).len() == old(weapons).len(),
        forall|i: int|
            0 <= i < old(weapons).len() ==> #[trigger] final(weapons)@[i] == old(weapons)@[i].after(
                delta,
            ),
        shots@ == shots_fired(old(weapons)@, stats@, delta, stats.len() as nat),
{
    let mut shots: Vec<Fired<P>> = Vec::new();
    let ghost before = weapons@;
    let mut i: usize = 0;
    while i < weapons.len()
        invariant
            0 <= i <= weapons.len(),
            weapons.len() == before.len(),
            before.len() == stats.len(),
            forall|k: int| 0 <= k < i ==> #[trigger] weapons@[k] == before[k].after(delta),
            forall|k: int| i <= k < before.len() ==> #[trigger] weapons@[k] == before[k],
            shots@ == shots_fired(before, stats@, delta, i as nat),
        decreases weapons.len() - i,
    {
        let mut weapon = weapons[i];
        let shot = weapon.fire(delta, stats[i].team);
        weapons.set(i, weapon);
        match shot {
            Some(shot) => {
                shots.push(Fired { shooter: i, shot });
            },
            None => {},
        }
        i = i + 1;
    }
    shots
}

/// What a pass of combat leaves behind.
pub struct Battle {
    /// The creatures, with their hit points.
    pub targets: Seq<CreatureStats>,
    /// For each creature, whether it was removed from the world.
    pub gone: Seq<bool>,
    pub info: GameInfo,
    pub next: NextState,
    /// The projectiles that hit, and are to be removed, in order.
    pub spent: Seq<usize>,
    /// The creatures that died and are to be removed, in order.
    pub slain: Seq<usize>,
    /// The sounds to play, in order.
    pub sounds: Seq<Sound>,
}

/// What the caller gets back from a pass of combat.
pub struct CombatReport {
    /// The projectiles that hit, and are to be removed, in order.
    pub spent: Vec<usize>,
    /// The creatures that died and are to be removed, in order.
    pub slain: Vec<usize>,
    /// The sounds to play, in order.
    pub sounds: Vec<Sound>,
}

/// Score for a monster killed.
pub const KILL_SCORE: i32 = 10;

/// A projectile threatens the creatures of every other team that are
/// within the hit radius. It never threatens its own team, however near.
pub open spec fn threatens(p: Projectile, team: Team, in_range: bool) -> bool {
    p.team != team && in_range
}

/// A projectile hits a creature that it threatens and that is still in
/// the world.
pub open spec fn can_hit(p: Projectile, target: CreatureStats, gone: bool, in_range: bool) -> bool {
    !gone && threatens(p, target.team, in_range)
}

/// The first of the first `n` creatures that the projectile hits.
pub open spec fn first_hit(
    p: Projectile,
    targets: Seq<CreatureStats>,
    gone: Seq<bool>,
    in_range: Seq<bool>,
    n: nat,
) -> Option<int>
    decreases n,
{
    if n == 0 {
        None
    } else {
        match first_hit(p, targets, gone, in_range, (n - 1) as nat) {
            Some(j) => Some(j),
            None => if can_hit(p, targets[n - 1], gone[n - 1], in_range[n - 1]) {
                Some(n - 1)
            } else {
                None
            },
        }
    }
}

/// Some creature that is not on the players' team is still in the world.
pub open spec fn monsters_remain(targets: Seq<CreatureStats>, gone: Seq<bool>) -> bool {
    exists|j: int| 0 <= j < targets.len() && #[trigger] targets[j].team != Team::Players && !gone[j]
}

/// The creature after it lost `damage` hit points.
pub open spec fn hurt(target: CreatureStats, damage: i16) -> CreatureStats {
    CreatureStats { hp: (target.hp - damage) as i16, ..target }
}

/// The battle after projectile `i` hit creature `j`.
///
/// The creature loses the projectile's damage and cries out. A player's
/// hit points are noted for the health bar. If the creature is left with
/// no hit points, then either it is a player, and the game is over, or it
/// is removed from the world and scores; when no monster remains after
/// that, the level is complete. The projectile is spent in every case.
pub open spec fn struck(b: Battle, p: Projectile, i: int, j: int) -> Battle {
    let target = hurt(b.targets[j], p.damage);
    let targets = b.targets.update(j, target);
    let spent = b.spent.push(i as usize);
    if target.team == Team::Players {
        Battle {
            targets,
            info: GameInfo { hp: target.hp, hp_max: target.hp_max, ..b.info },
            next: if target.hp <= 0 {
                NextState { pending: Some(GameState::GameOver) }
            } else {
                b.next
            },
            spent,
            sounds: b.sounds.push(Sound::PlayerHurt),
            ..b
        }
    } else if target.hp <= 0 {
        let gone = b.gone.update(j, true);
        Battle {
            targets,
            gone,
            info: GameInfo { score: (b.info.score + KILL_SCORE) as i32, ..b.info },
            next: if monsters_remain(targets, gone) {
                b.next
            } else {
                NextState { pending: Some(GameState::NextLevel) }
            },
            spent,
            slain: b.slain.push(j as usize),
            sounds: b.sounds.push(Sound::MonsterHurt),
        }
    } else {
        Battle { targets, spent, sounds: b.sounds.push(Sound::MonsterHurt), ..b }
    }
}

/// The battle after projectile `i` flew: it hits the first creature it can
/// hit and no other, or nothing.
pub open spec fn flown(b: Battle, p: Projectile, i: int, in_range: Seq<bool>) -> Battle {
    match first_hit(p, b.targets, b.gone, in_range, b.targets.len()) {
        Some(j) => struck(b, p, i, j),
        None => b,
    }
}

/// The battle after the first `n` projectiles flew, one after another.
/// `in_range[i]@[j]` says whether projectile `i` is within the hit radius
/// of creature `j`.
pub open spec fn fought(
    b: Battle,
    projectiles: Seq<Projectile>,
    in_range: Seq<Vec<bool>>,
    n: nat,
) -> Battle
    decreases n,
{
    if n == 0 {
        b
    } else {
        flown(fought(b, projectiles, in_range, (n - 1) as nat), projectiles[n - 1], n - 1, in_range[n - 1]@)
    }
}

/// The battle before any projectile flew.
pub open spec fn battle_start(targets: Seq<CreatureStats>, info: GameInfo, next: NextState) -> Battle {
    Battle {
        targets,
        gone: Seq::new(targets.len(), |j: int| false),
        info,
        next,
        spent: Seq::empty(),
        slain: Seq::empty(),
        sounds: Seq::empty(),
    }
}

/// The damage that creature `j`, which is of `team`, has to fear from the
/// first `n` projectiles: the damage of those that threaten it.
pub open spec fn damage_due(
    projectiles: Seq<Projectile>,
    in_range: Seq<Vec<bool>>,
    team: Team,
    j: int,
    n: nat,
) -> int
    decreases n,
{
    if n == 0 {
        0
    } else {
        damage_due(projectiles, in_range, team, j, (n - 1) as nat) + if threatens(
            projectiles[n - 1],
            team,
            in_range[n - 1]@[j],
        ) {
            projectiles[n - 1].damage as int
        } else {
            0
        }
    }
}

/// The projectile can score: it threatens a creature that is not a player.
pub open spec fn scores_on(p: Projectile, target: CreatureStats, in_range: bool) -> bool {
    target.team != Team::Players && threatens(p, target.team, in_range)
}

/// The projectile can score on some creature.
pub open spec fn may_score(p: Projectile, targets: Seq<CreatureStats>, in_range: Seq<bool>) -> bool {
    exists|j: int| 0 <= j < targets.len() && #[trigger] scores_on(p, targets[j], in_range[j])
}

/// Number of those of the first `n` projectiles that can score.
pub open spec fn kills_due(
    projectiles: Seq<Projectile>,
    targets: Seq<CreatureStats>,
    in_range: Seq<Vec<bool>>,
    n: nat,
) -> int
    decreases n,
{
    if n == 0 {
        0
    } else {
        kills_due(projectiles, targets, in_range, (n - 1) as nat) + if may_score(
            projectiles[n - 1],
            targets,
            in_range[n - 1]@,
        ) {
            1int
        } else {
            0int
        }
    }
}

/// The numbers of a pass of combat stay within their types. Only pairs in
/// which the projectile threatens the creature count: such a projectile
/// does no negative damage, a creature has room in `i16` for the damage of
/// the projectiles that threaten it, and the score has room for one kill
/// by each projectile that can score. Nothing is asked on account of a
/// projectile and a creature of one team, or out of range of each other.
pub open spec fn combat_fits(
    projectiles: Seq<Projectile>,
    targets: Seq<CreatureStats>,
    in_range: Seq<Vec<bool>>,
    info: GameInfo,
) -> bool {
    &&& forall|i: int, j: int|
        0 <= i < projectiles.len() && 0 <= j < targets.len() && #[trigger] threatens(
            projectiles[i],
            targets[j].team,
            in_range[i]@[j],
        ) ==> projectiles[i].damage >= 0
    &&& forall|j: int|
        0 <= j < targets.len() ==> (#[trigger] targets[j]).hp - damage_due(
            projectiles,
            in_range,
            targets[j].team,
            j,
            projectiles.len(),
        ) >= i16::MIN
    &&& info.score + KILL_SCORE * kills_due(projectiles, targets, in_range, projectiles.len())
        <= i32::MAX
}

proof fn lemma_damage_due_grows(
    projectiles: Seq<Projectile>,
    in_range: Seq<Vec<bool>>,
    team: Team,
    j: int,
    a: nat,
    b: nat,
)
    requires
        a <= b <= projectiles.len(),
        forall|i: int|
            0 <= i < projectiles.len() && #[trigger] threatens(projectiles[i], team, in_range[i]@[j])
                ==> projectiles[i].damage >= 0,
    ensures
        0 <= damage_due(projectiles, in_range, team, j, a) <= damage_due(
            projectiles,
            in_range,
            team,
            j,
            b,
        ),
    decreases b,
{
    if a < b {
        lemma_damage_due_grows(projectiles, in_range, team, j, a, (b - 1) as nat);
    } else if b > 0 {
        lemma_damage_due_grows(projectiles, in_range, team, j, (b - 1) as nat, (b - 1) as nat);
    }
}

proof fn lemma_kills_due_grow(
    projectiles: Seq<Projectile>,
    targets: Seq<CreatureStats>,
    in_range: Seq<Vec<bool>>,
    a: nat,
    b: nat,
)
    requires
        a <= b,
    ensures
        0 <= kills_due(projectiles, targets, in_range, a) <= kills_due(
            projectiles,
            targets,
            in_range,
            b,
        ),
    decreases b,
{
    if a < b {
        lemma_kills_due_grow(projectiles, targets, in_range, a, (b - 1) as nat);
    } else if b > 0 {
        lemma_kills_due_grow(projectiles, targets, in_range, (b - 1) as nat, (b - 1) as nat);
    }
}

proof fn lemma_first_hit_found(
    p: Projectile,
    targets: Seq<CreatureStats>,
    gone: Seq<bool>,
    in_range: Seq<bool>,
    j: int,
    n: nat,
)
    requires
        0 <= j < n,
        first_hit(p, targets, gone, in_range, j as nat) is None,
        can_hit(p, targets[j], gone[j], in_range[j]),
    ensures
        first_hit(p, targets, gone, in_range, n) == Some(j),
    decreases n,
{
    if n > j + 1 {
        lemma_first_hit_found(p, targets, gone, in_range, j, (n - 1) as nat);
    }
}

/// Whether any monster is still in the world.
fn any_monster_left(targets: &Vec<CreatureStats>, gone: &Vec<bool>) -> (left: bool)
    requires
        targets.len() == gone.len(),
    ensures
        left == monsters_remain(targets@, gone@),
{
    let mut j: usize = 0;
    while j < targets.len()
        invariant
            0 <= j <= targets.len(),
            targets.len() == gone.len(),
            forall|k: int| 0 <= k < j ==> !(#[trigger] targets@[k].team != Team::Players && !gone@[k]),
        decreases targets.len() - j,
    {
        if targets[j].team != Team::Players && !gone[j] {
            return true;
        }
        j = j + 1;
    }
    false
}

/// Lets projectile `i` hit creature `j`.
fn strike(
    p: &Projectile,
    i: usize,
    j: usize,
    targets: &mut Vec<CreatureStats>,
    gone: &mut Vec<bool>,
    game: &mut GameInfo,
    game_state: &mut NextState,
    report: &mut CombatReport,
)
    requires
        j < old(targets).len(),
        old(targets).len() == old(gone).len(),
        i16::MIN <= old(targets)@[j as int].hp - p.damage <= i16::MAX,
        old(targets)@[j as int].team != Team::Players ==> old(game).score + KILL_SCORE <= i32::MAX,
    ensures
        (Battle {
            targets: final(targets)@,
            gone: final(gone)@,
            info: *final(game),
            next: *final(game_state),
            spent: final(report).spent@,
            slain: final(report).slain@,
            sounds: final(report).sounds@,
        }) == struck(
            Battle {
                targets: old(targets)@,
                gone: old(gone)@,
                info: *old(game),
                next: *old(game_state),
                spent: old(report).spent@,
                slain: old(report).slain@,
                sounds: old(report).sounds@,
            },
            *p,
            i as int,
            j as int,
        ),
{
    let mut stats = targets[j];
    stats.hp = stats.hp - p.damage;
    targets.set(j, stats);
    if stats.team == Team::Players {
        game.hp = stats.hp;
        game.hp_max = stats.hp_max;
        report.sounds.push(Sound::PlayerHurt);
    } else {
        report.sounds.push(Sound::MonsterHurt);
    }
    if stats.hp <= 0 {
        if stats.team == Team::Players {
            game_state.set(GameState::GameOver);
        } else {
            gone.set(j, true);
            report.slain.push(j);
            game.score = game.score + KILL_SCORE;
            if !any_monster_left(targets, gone) {
                game_state.set(GameState::NextLevel);
            }
        }
    }
    report.spent.push(i);
}

/// No projectile threatens creature `j`, which is of `team`: each is of
/// the same team or out of range.
pub open spec fn unthreatened(
    projectiles: Seq<Projectile>,
    in_range: Seq<Vec<bool>>,
    team: Team,
    j: int,
) -> bool {
    forall|i: int|
        0 <= i < projectiles.len() ==> !#[trigger] threatens(projectiles[i], team, in_range[i]@[j])
}

/// No projectile threatens any creature.
pub open spec fn peaceful(
    projectiles: Seq<Projectile>,
    targets: Seq<CreatureStats>,
    in_range: Seq<Vec<bool>>,
) -> bool {
    forall|i: int, j: int|
        0 <= i < projectiles.len() && 0 <= j < targets.len() ==> !#[trigger] threatens(
            projectiles[i],
            targets[j].team,
            in_range[i]@[j],
        )
}

/// Resolves the hits of projectiles on creatures for one step of the
/// simulation.
///
/// `in_range[i][j]` says whether projectile `i` is within the hit radius
/// of creature `j`. The projectiles fly in order. Each hits the first
/// creature of another team in range that is still in the world, and is
/// then spent: no projectile hits twice. A projectile never harms its own
/// team. A creature that dies is removed at once, unless it is a player:
/// then the game is over. The result is `fought` on the values given.
pub fn check_projectile_creature_collisions(
    projectiles: &Vec<Projectile>,
    targets: &mut Vec<CreatureStats>,
    in_range: &Vec<Vec<bool>>,
    game: &mut GameInfo,
    game_state: &mut NextState,
) -> (report: CombatReport)
    requires
        in_range.len() == projectiles.len(),
        forall|i: int| 0 <= i < in_range.len() ==> (#[trigger] in_range@[i]).len() == old(targets).len(),
        combat_fits(projectiles@, old(targets)@, in_range@, *old(game)),
    ensures
        ({
            let after = fought(
                battle_start(old(targets)@, *old(game), *old(game_state)),
                projectiles@,
                in_range@,
                projectiles.len() as nat,
            );
            &&& final(targets)@ == after.targets
            &&& *final(game) == after.info
            &&& *final(game_state) == after.next
            &&& report.spent@ == after.spent
            &&& report.slain@ == after.slain
            &&& report.sounds@ == after.sounds
        }),
        final(targets).len() == old(targets).len(),
        forall|j: int|
            0 <= j < old(targets).len() && unthreatened(
                projectiles@,
                in_range@,
                (#[trigger] old(targets)@[j]).team,
                j,
            ) ==> final(targets)@[j] == old(targets)@[j],
        peaceful(projectiles@, old(targets)@, in_range@) ==> {
            &&& *final(game) == *old(game)
            &&& *final(game_state) == *old(game_state)
            &&& report.spent@ == Seq::<usize>::empty()
            &&& report.slain@ == Seq::<usize>::empty()
            &&& report.sounds@ == Seq::<Sound>::empty()
        },
{
    let ghost start = battle_start(targets@, *game, *game_state);
    let ghost count = projectiles.len() as nat;
    let mut report = CombatReport { spent: Vec::new(), slain: Vec::new(), sounds: Vec::new() };
    let mut gone: Vec<bool> = Vec::new();
    let mut k: usize = 0;
    while k < targets.len()
        invariant
            0 <= k <= targets.len(),
            gone.len() == k,
            forall|j: int| 0 <= j < k ==> !(#[trigger] gone@[j]),
        decreases targets.len() - k,
    {
        gone.push(false);
        k = k + 1;
    }
    assert(gone@ =~= start.gone);

    let mut i: usize = 0;
    while i < projectiles.len()
        invariant
            0 <= i <= projectiles.len(),
            count == projectiles.len(),
            in_range.len() == projectiles.len(),
            forall|r: int| 0 <= r < in_range.len() ==> (#[trigger] in_range@[r]).len() == start.targets.len(),
            combat_fits(projectiles@, start.targets, in_range@, start.info),
            targets.len() == start.targets.len(),
            gone.len() == targets.len(),
            forall|j: int| 0 <= j < targets.len() ==> (#[trigger] targets@[j]).team == start.targets[j].team,
            forall|j: int|
                0 <= j < targets.len() ==> (#[trigger] targets@[j]).hp - (damage_due(
                    projectiles@,
                    in_range@,
                    start.targets[j].team,
                    j,
                    count,
                ) - damage_due(projectiles@, in_range@, start.targets[j].team, j, i as nat))
                    >= i16::MIN,
            game.score <= start.info.score + KILL_SCORE * kills_due(
                projectiles@,
                start.targets,
                in_range@,
                i as nat,
            ),
            (Battle {
                targets: targets@,
                gone: gone@,
                info: *game,
                next: *game_state,
                spent: report.spent@,
                slain: report.slain@,
                sounds: report.sounds@,
            }) == fought(start, projectiles@, in_range@, i as nat),
        decreases projectiles.len() - i,
    {
        let p = projectiles[i];
        let row = &in_range[i];
        let ghost here = fought(start, projectiles@, in_range@, i as nat);
        proof {
            lemma_kills_due_grow(projectiles@, start.targets, in_range@, (i + 1) as nat, count);
            lemma_kills_due_grow(projectiles@, start.targets, in_range@, i as nat, i as nat);
            assert forall|t: int|
                0 <= t < targets.len() && threatens(
                    p,
                    (#[trigger] targets@[t]).team,
                    row@[t],
                ) implies p.damage >= 0 && i16::MIN <= targets@[t].hp - p.damage by {
                let team = start.targets[t].team;
                assert(threatens(projectiles@[i as int], start.targets[t].team, in_range@[i as int]@[t]));
                lemma_damage_due_grows(projectiles@, in_range@, team, t, (i + 1) as nat, count);
                lemma_damage_due_grows(projectiles@, in_range@, team, t, i as nat, i as nat);
            }
        }
        let mut j: usize = 0;
        let mut hit = false;
        while j < targets.len()
            invariant_except_break
                !hit,
                first_hit(p, targets@, gone@, row@, j as nat) is None,
                forall|t: int|
                    0 <= t < targets.len() && threatens(p, (#[trigger] targets@[t]).team, row@[t])
                        ==> p.damage >= 0 && i16::MIN <= targets@[t].hp - p.damage,
                may_score(p, start.targets, row@) ==> game.score + KILL_SCORE <= i32::MAX,
            invariant
                0 <= j <= targets.len(),
                gone.len() == targets.len(),
                row.len() == targets.len(),
                targets.len() == start.targets.len(),
                here.targets.len() == targets.len(),
                forall|t: int|
                    0 <= t < targets.len() ==> (#[trigger] targets@[t]).team == start.targets[t].team,
                forall|t: int|
                    0 <= t < targets.len() ==> (#[trigger] here.targets[t]).team
                        == start.targets[t].team,
                forall|t: int|
                    0 <= t < targets.len() ==> (#[trigger] targets@[t]).hp == here.targets[t].hp || (
                    threatens(p, start.targets[t].team, row@[t]) && p.damage >= 0 && targets@[t].hp
                        == here.targets[t].hp - p.damage),
                game.score == here.info.score || (may_score(p, start.targets, row@) && game.score
                    == here.info.score + KILL_SCORE),
                (Battle {
                    targets: targets@,
                    gone: gone@,
                    info: *game,
                    next: *game_state,
                    spent: report.spent@,
                    slain: report.slain@,
                    sounds: report.sounds@,
                }) == (if hit {
                    flown(here, p, i as int, row@)
                } else {
                    here
                }),
            ensures
                !hit ==> first_hit(p, targets@, gone@, row@, targets.len() as nat) is None,
            decreases targets.len() - j,
        {
            if !gone[j] && p.team != targets[j].team && row[j] {
                proof {
                    lemma_first_hit_found(p, targets@, gone@, row@, j as int, targets.len() as nat);
                    assert(threatens(p, targets@[j as int].team, row@[j as int]));
                    if targets@[j as int].team != Team::Players {
                        assert(scores_on(p, start.targets[j as int], row@[j as int]));
                    }
                }
                strike(&p, i, j, targets, &mut gone, game, game_state, &mut report);
                hit = true;
                break ;
            }
            j = j + 1;
        }
        proof {
            assert forall|t: int| 0 <= t < targets.len() implies (#[trigger] targets@[t]).hp - (
            damage_due(projectiles@, in_range@, start.targets[t].team, t, count) - damage_due(
                projectiles@,
                in_range@,
                start.targets[t].team,
                t,
                (i + 1) as nat,
            )) >= i16::MIN by {
                let team = start.targets[t].team;
                assert(here.targets[t].hp - (damage_due(projectiles@, in_range@, team, t, count)
                    - damage_due(projectiles@, in_range@, team, t, i as nat)) >= i16::MIN);
                if threatens(projectiles@[i as int], team, in_range@[i as int]@[t]) {
                    assert(projectiles@[i as int].damage >= 0);
                }
            }
        }
        i = i + 1;
    }
    proof {
        assert forall|j: int|
            0 <= j < start.targets.len() && unthreatened(
                projectiles@,
                in_range@,
                (#[trigger] start.targets[j]).team,
                j,
            ) implies targets@[j] == start.targets[j] by {
            lemma_unthreatened_is_untouched(start, projectiles@, in_range@, count, j);
        }
        if peaceful(projectiles@, start.targets, in_range@) {
            lemma_no_threat_no_change(start, projectiles@, in_range@, count);
        }
    }
    report
}

/// The creature that a projectile hits first is one it can hit.
pub proof fn lemma_first_hit_can_hit(
    p: Projectile,
    targets: Seq<CreatureStats>,
    gone: Seq<bool>,
    in_range: Seq<bool>,
    n: nat,
)
    ensures
        first_hit(p, targets, gone, in_range, n) matches Some(j) ==> 0 <= j < n && can_hit(
            p,
            targets[j],
            gone[j],
            in_range[j],
        ),
    decreases n,
{
    if n > 0 {
        lemma_first_hit_can_hit(p, targets, gone, in_range, (n - 1) as nat);
    }
}

/// A projectile changes at most the hit points of creatures. It never
/// changes a creature of its own team, whatever is in range: there is no
/// friendly fire.
pub proof fn lemma_no_friendly_fire(b: Battle, p: Projectile, i: int, in_range: Seq<bool>)
    ensures
        flown(b, p, i, in_range).targets.len() == b.targets.len(),
        forall|j: int|
            0 <= j < b.targets.len() ==> (#[trigger] flown(b, p, i, in_range).targets[j]).team
                == b.targets[j].team,
        forall|j: int|
            0 <= j < b.targets.len() && b.targets[j].team == p.team ==> #[trigger] flown(
                b,
                p,
                i,
                in_range,
            ).targets[j] == b.targets[j],
{
    lemma_first_hit_can_hit(p, b.targets, b.gone, in_range, b.targets.len());
}

/// In a whole pass of combat, projectiles that all belong to one team
/// leave every creature of that team as it was. So a projectile of the
/// players never takes hit points from a player.
pub proof fn lemma_team_is_safe_from_itself(
    b: Battle,
    projectiles: Seq<Projectile>,
    in_range: Seq<Vec<bool>>,
    n: nat,
    team: Team,
)
    requires
        n <= projectiles.len(),
        forall|i: int| 0 <= i < n ==> (#[trigger] projectiles[i]).team == team,
    ensures
        fought(b, projectiles, in_range, n).targets.len() == b.targets.len(),
        forall|j: int|
            0 <= j < b.targets.len() ==> (#[trigger] fought(b, projectiles, in_range, n).targets[j]).team
                == b.targets[j].team,
        forall|j: int|
            0 <= j < b.targets.len() && b.targets[j].team == team ==> #[trigger] fought(
                b,
                projectiles,
                in_range,
                n,
            ).targets[j] == b.targets[j],
    decreases n,
{
    if n > 0 {
        lemma_team_is_safe_from_itself(b, projectiles, in_range, (n - 1) as nat, team);
        lemma_no_friendly_fire(
            fought(b, projectiles, in_range, (n - 1) as nat),
            projectiles[n - 1],
            n - 1,
            in_range[n - 1]@,
        );
    }
}

/// A creature that no projectile of a pass threatens comes out of the
/// pass as it went in: with its hit points, and still in the world. That
/// holds of a creature among projectiles of its own team at any distance,
/// and of a creature that is out of range of all others.
pub proof fn lemma_unthreatened_is_untouched(
    b: Battle,
    projectiles: Seq<Projectile>,
    in_range: Seq<Vec<bool>>,
    n: nat,
    j: int,
)
    requires
        n <= projectiles.len(),
        0 <= j < b.targets.len(),
        b.gone.len() == b.targets.len(),
        unthreatened(projectiles, in_range, b.targets[j].team, j),
    ensures
        fought(b, projectiles, in_range, n).targets.len() == b.targets.len(),
        fought(b, projectiles, in_range, n).gone.len() == b.gone.len(),
        fought(b, projectiles, in_range, n).targets[j] == b.targets[j],
        fought(b, projectiles, in_range, n).gone[j] == b.gone[j],
    decreases n,
{
    if n > 0 {
        let before = fought(b, projectiles, in_range, (n - 1) as nat);
        lemma_unthreatened_is_untouched(b, projectiles, in_range, (n - 1) as nat, j);
        let p = projectiles[n - 1];
        let row = in_range[n - 1]@;
        assert(!threatens(p, b.targets[j].team, row[j]));
        lemma_first_hit_can_hit(p, before.targets, before.gone, row, before.targets.len());
    }
}

/// Whether a projectile is near a creature of its own team makes no
/// difference to anything: two passes of one projectile that differ only
/// in what is in range among its own team end alike. The projectile is not
/// spent on such a creature, no sound is heard for it, and neither the
/// session nor the pending state changes on its account.
pub proof fn lemma_own_team_does_not_count(
    b: Battle,
    p: Projectile,
    i: int,
    in_range: Seq<bool>,
    other: Seq<bool>,
)
    requires
        forall|j: int|
            0 <= j < b.targets.len() && (#[trigger] b.targets[j]).team != p.team ==> in_range[j]
                == other[j],
    ensures
        flown(b, p, i, in_range) == flown(b, p, i, other),
{
    lemma_first_hit_same(b, p, in_range, other, b.targets.len());
}

proof fn lemma_first_hit_same(b: Battle, p: Projectile, in_range: Seq<bool>, other: Seq<bool>, n: nat)
    requires
        n <= b.targets.len(),
        forall|j: int|
            0 <= j < b.targets.len() && (#[trigger] b.targets[j]).team != p.team ==> in_range[j]
                == other[j],
    ensures
        first_hit(p, b.targets, b.gone, in_range, n) == first_hit(p, b.targets, b.gone, other, n),
    decreases n,
{
    if n > 0 {
        lemma_first_hit_same(b, p, in_range, other, (n - 1) as nat);
        assert(b.targets[n - 1].team != p.team ==> in_range[n - 1] == other[n - 1]);
    }
}

/// A pass in which no projectile threatens any creature changes nothing at
/// all: no hit points, no score, no sound, nothing spent or removed, and
/// no state asked for.
pub proof fn lemma_no_threat_no_change(
    b: Battle,
    projectiles: Seq<Projectile>,
    in_range: Seq<Vec<bool>>,
    n: nat,
)
    requires
        n <= projectiles.len(),
        forall|i: int, j: int|
            0 <= i < n && 0 <= j < b.targets.len() ==> !#[trigger] threatens(
                projectiles[i],
                b.targets[j].team,
                in_range[i]@[j],
            ),
    ensures
        fought(b, projectiles, in_range, n) == b,
    decreases n,
{
    if n > 0 {
        lemma_no_threat_no_change(b, projectiles, in_range, (n - 1) as nat);
        let p = projectiles[n - 1];
        let row = in_range[n - 1]@;
        lemma_first_hit_can_hit(p, b.targets, b.gone, row, b.targets.len());
        if first_hit(p, b.targets, b.gone, row, b.targets.len()) is Some {
            let j = first_hit(p, b.targets, b.gone, row, b.targets.len())->0;
            assert(threatens(projectiles[n - 1], b.targets[j].team, in_range[n - 1]@[j]));
        }
    }
}

/// A hit that leaves a creature without hit points has exactly one of two
/// outcomes. For a player the game is over, and nothing is removed or
/// scored. For any other creature it is removed and scored, and the hit
/// does not end the game.
pub proof fn lemma_death_has_one_outcome(b: Battle, p: Projectile, i: int, j: int)
    requires
        0 <= j < b.targets.len(),
        b.gone.len() == b.targets.len(),
        i16::MIN <= b.targets[j].hp - p.damage <= 0,
        b.info.score + KILL_SCORE <= i32::MAX,
    ensures
        ({
            let after = struck(b, p, i, j);
            if b.targets[j].team == Team::Players {
                &&& after.next.pending == Some(GameState::GameOver)
                &&& after.slain == b.slain
                &&& after.gone == b.gone
                &&& after.info.score == b.info.score
            } else {
                &&& after.slain == b.slain.push(j as usize)
                &&& after.gone == b.gone.update(j, true)
                &&& after.info.score == b.info.score + KILL_SCORE
                &&& (after.next == b.next || after.next.pending == Some(GameState::NextLevel))
            }
        }),
{
}

} // verus!
