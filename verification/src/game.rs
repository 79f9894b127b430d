//! State of a game session.

use vstd::prelude::*;
use crate::mapgen::{home_tile, lemma_home_tile_is_floor, level_cells, make_map};
use crate::pickup::{choose_spawn_pos, spawn_pos};
use crate::rng::{rng_i32, SeededRng};
use crate::tile::Tile;
use crate::tilemap::{solid_at, Coords, TileMap};
use crate::weapon::ProjectileType;

verus! {

/// The screens and phases of a session.
#[derive(Debug, Hash, PartialEq, Eq, Clone, Copy, Structural)]
pub enum GameState {
    MainMenu,
    InGame,
    GameOver,
    Paused,
    NextLevel,
}

impl Default for GameState {
    /// A session starts in the main menu.
    fn default() -> (state: GameState)
        ensures
            state == GameState::MainMenu,
    {
        GameState::MainMenu
    }
}

/// The state that the simulation has asked to enter next, if any. The
/// request is carried out by whoever runs the session, when the current
/// step is over; a later request in the same step replaces an earlier one.
#[derive(Debug, Clone, Copy)]
pub struct NextState {
    pub pending: Option<GameState>,
}

impl NextState {
    /// No request.
    pub fn new() -> (next: NextState)
        ensures
            next.pending is None,
    {
        NextState { pending: None }
    }

    /// Asks for a transition to `state`.
    pub fn set(&mut self, state: GameState)
        ensures
            final(self).pending == Some(state),
    {
        self.pending = Some(state);
    }
}

/// Score, purse and progress of the running session.
#[derive(Debug, Clone, Copy, PartialEq, Eq, Structural)]
pub struct GameInfo {
    pub score: i32,
    pub coins: i32,
    /// One bit for each key that was picked up.
    pub key_flags: u8,
    /// Number of the level that is played or is to be played next.
    pub level: u8,
    /// Whether the entities of `level` have been created.
    pub level_spawned: bool,
    /// Hit points of the player as last changed by combat, for the health
    /// bar, which shows `hp / hp_max` limited to the range from 0 to 1.
    pub hp: i16,
    pub hp_max: i16,
}

impl Default for GameInfo {
    fn default() -> (info: GameInfo)
        ensures
            info == (GameInfo {
                score: 0,
                coins: 0,
                key_flags: 0,
                level: 0,
                level_spawned: false,
                hp: 0,
                hp_max: 0,
            }),
    {
        GameInfo {
            score: 0,
            coins: 0,
            key_flags: 0,
            level: 0,
            level_spawned: false,
            hp: 0,
            hp_max: 0,
        }
    }
}

/// Height of the player's eyes above the floor, in hundredths of a tile.
pub const PLAYER_EYE_HEIGHT: u8 = 70;

impl GameInfo {
    /// Whether the entities of the current level still have to be created.
    pub fn needs_level(&self) -> (needed: bool)
        ensures
            needed == !self.level_spawned,
    {
        !self.level_spawned
    }
}

/// What is to be done to the world when the session enters a state.
#[derive(Copy, Clone, PartialEq, Eq, Structural, Debug)]
pub enum SessionAction {
    /// Forget the grid of the level.
    ClearMap,
    /// Remove everything that belongs to the level.
    DespawnLevel,
    /// Remove the player.
    DespawnPlayer,
    /// Make the level of this number and put it into the world.
    SpawnLevel(u8),
}

/// The session after it entered `state`. The main menu starts the session
/// afresh. A level that is entered counts as spawned. The next level has
/// the next number, as far as numbers go, and is yet to be spawned.
pub open spec fn info_on_enter(state: GameState, info: GameInfo) -> GameInfo {
    match state {
        GameState::MainMenu => GameInfo {
            score: 0,
            coins: 0,
            key_flags: 0,
            level: 0,
            level_spawned: false,
            hp: 0,
            hp_max: 0,
        },
        GameState::InGame => GameInfo { level_spawned: true, ..info },
        GameState::NextLevel => GameInfo {
            level: if info.level < u8::MAX {
                (info.level + 1) as u8
            } else {
                info.level
            },
            level_spawned: false,
            ..info
        },
        _ => info,
    }
}

/// What is to be done when the session enters `state`, in order. The old
/// level is always removed as a whole before a new one is made.
pub open spec fn actions_on_enter(state: GameState, info: GameInfo) -> Seq<SessionAction> {
    match state {
        GameState::MainMenu => seq![
            SessionAction::ClearMap,
            SessionAction::DespawnLevel,
            SessionAction::DespawnPlayer,
        ],
        GameState::InGame => if info.level_spawned {
            Seq::empty()
        } else {
            seq![SessionAction::DespawnLevel, SessionAction::SpawnLevel(info.level)]
        },
        GameState::NextLevel => seq![SessionAction::ClearMap, SessionAction::DespawnLevel],
        _ => Seq::empty(),
    }
}

/// Carries out the entry into a state: updates the session and says what
/// is to be done to the world. Nothing happens while a state lasts, only
/// when it is entered.
pub fn on_enter(state: GameState, info: &mut GameInfo) -> (actions: Vec<SessionAction>)
    ensures
        *final(info) == info_on_enter(state, *old(info)),
        actions@ == actions_on_enter(state, *old(info)),
{
    let mut actions: Vec<SessionAction> = Vec::new();
    match state {
        GameState::MainMenu => {
            *info = GameInfo::default();
            actions.push(SessionAction::ClearMap);
            actions.push(SessionAction::DespawnLevel);
            actions.push(SessionAction::DespawnPlayer);
        },
        GameState::InGame => {
            if !info.level_spawned {
                actions.push(SessionAction::DespawnLevel);
                actions.push(SessionAction::SpawnLevel(info.level));
                info.level_spawned = true;
            }
        },
        GameState::NextLevel => {
            if info.level < u8::MAX {
                info.level = info.level + 1;
            }
            info.level_spawned = false;
            actions.push(SessionAction::ClearMap);
            actions.push(SessionAction::DespawnLevel);
        },
        _ => {},
    }
    assert(actions@ =~= actions_on_enter(state, *old(info)));
    actions
}

/// The kinds of monster, named by what they throw.
#[derive(Copy, Clone, PartialEq, Eq, Structural, Debug)]
pub enum MonsterType {
    Spiker,
    Blobber,
    Shocker,
}

impl MonsterType {
    pub open spec fn projectile_of(self) -> ProjectileType {
        match self {
            MonsterType::Spiker => ProjectileType::RedSpikes,
            MonsterType::Blobber => ProjectileType::BlueBlob,
            MonsterType::Shocker => ProjectileType::Shock,
        }
    }

    /// The projectile that the monster's weapon fires.
    pub fn projectile(&self) -> (kind: ProjectileType)
        ensures
            kind == self.projectile_of(),
    {
        match self {
            MonsterType::Spiker => ProjectileType::RedSpikes,
            MonsterType::Blobber => ProjectileType::BlueBlob,
            MonsterType::Shocker => ProjectileType::Shock,
        }
    }
}

/// Which monsters a level is filled with. The kinds stand in the order of
/// preference: a kind is picked the more often the nearer it stands to
/// the front. `extra_draws` sets how strong that preference is; with 0
/// all kinds are equally likely.
pub struct LevelStyle {
    pub monsters: Vec<MonsterType>,
    pub extra_draws: u8,
}

/// The kinds of monster that the levels from `level` on are filled with,
/// strongest first.
pub open spec fn style_monsters(level: u8) -> Seq<MonsterType> {
    if level < 2 {
        seq![MonsterType::Spiker]
    } else if level < 4 {
        seq![MonsterType::Blobber, MonsterType::Spiker]
    } else {
        seq![MonsterType::Shocker, MonsterType::Blobber, MonsterType::Spiker]
    }
}

/// How strongly a level of this number prefers the front of its list.
pub open spec fn style_extra_draws(level: u8) -> u8 {
    if level < 6 {
        1
    } else {
        2
    }
}

/// The style of a level.
pub fn make_by_level(level: u8) -> (style: LevelStyle)
    ensures
        style.monsters@ == style_monsters(level),
        style.extra_draws == style_extra_draws(level),
        0 < style.monsters.len() <= 3,
{
    let mut monsters: Vec<MonsterType> = Vec::new();
    if level >= 4 {
        monsters.push(MonsterType::Shocker);
    }
    if level >= 2 {
        monsters.push(MonsterType::Blobber);
    }
    monsters.push(MonsterType::Spiker);
    assert(monsters@ =~= style_monsters(level));
    LevelStyle { monsters, extra_draws: if level < 6 { 1 } else { 2 } }
}

/// The smaller of two places in a list: the one nearer to the front.
pub open spec fn nearer_front(a: int, b: int) -> int {
    if b < a {
        b
    } else {
        a
    }
}

/// A front-loaded pick from a list of `len` entries on a generator in the
/// state `seed`: the place picked and the state afterwards. One place is
/// drawn, then `extra` more, and the one nearest to the front is kept.
pub open spec fn front_loaded(len: i32, seed: u64, extra: nat) -> (int, u64)
    decreases extra,
{
    if extra == 0 {
        let first = rng_i32(seed, 0, len);
        (first.0 as int, first.1)
    } else {
        let before = front_loaded(len, seed, (extra - 1) as nat);
        let again = rng_i32(before.1, 0, len);
        (nearer_front(before.0, again.0 as int), again.1)
    }
}

/// Keeps of two places the one nearer to the front.
pub fn front_most(a: usize, b: usize) -> (place: usize)
    ensures
        place == nearer_front(a as int, b as int),
{
    if b < a {
        b
    } else {
        a
    }
}

impl LevelStyle {
    /// Picks a kind of monster at random, the front of the list more often
    /// than its end. The list must not be empty.
    pub fn rand_front_loaded(&self, rng: &mut SeededRng) -> (kind: MonsterType)
        requires
            0 < self.monsters.len() <= i32::MAX,
        ensures
            ({
                let pick = front_loaded(
                    self.monsters.len() as i32,
                    old(rng).seed,
                    self.extra_draws as nat,
                );
                &&& 0 <= pick.0 < self.monsters.len()
                &&& kind == self.monsters@[pick.0]
                &&& final(rng).seed == pick.1
            }),
    {
        let len: i32 = self.monsters.len() as i32;
        let ghost start = rng.seed;
        let mut place: usize = rng.i32(0, len) as usize;
        let mut done: u8 = 0;
        while done < self.extra_draws
            invariant
                0 < len == self.monsters.len(),
                0 <= done <= self.extra_draws,
                0 <= place < len,
                (place as int, rng.seed) == front_loaded(len, start, done as nat),
            decreases self.extra_draws - done,
        {
            let again = rng.i32(0, len) as usize;
            place = front_most(place, again);
            done = done + 1;
        }
        self.monsters[place]
    }
}

/// Number of monsters that a level tries to place.
pub open spec fn monsters_wanted(level: u8) -> nat {
    (level * 5 + 15) as nat
}

pub fn monster_count(level: u8) -> (count: u32)
    ensures
        count == monsters_wanted(level),
{
    level as u32 * 5 + 15
}

/// A monster to be put into the world at a tile.
#[derive(Copy, Clone, PartialEq, Eq, Structural, Debug)]
pub struct MonsterSpawn {
    pub kind: MonsterType,
    pub pos: Coords,
}

/// The monsters placed by `attempts` attempts on a generator in the state
/// `seed`, and the state afterwards. Each attempt picks a kind and then
/// looks for a free tile; an attempt that finds none places nothing.
pub open spec fn monsters_placed(
    cells: Seq<Seq<Tile>>,
    kinds: Seq<MonsterType>,
    extra_draws: u8,
    seed: u64,
    attempts: nat,
) -> (Seq<MonsterSpawn>, u64)
    decreases attempts,
{
    if attempts == 0 {
        (Seq::empty(), seed)
    } else {
        let pick = front_loaded(kinds.len() as i32, seed, extra_draws as nat);
        let spot = spawn_pos(cells, pick.1);
        let rest = monsters_placed(cells, kinds, extra_draws, spot.1, (attempts - 1) as nat);
        match spot.0 {
            Some(pos) => (seq![MonsterSpawn { kind: kinds[pick.0], pos }] + rest.0, rest.1),
            None => rest,
        }
    }
}

/// What is put into a level besides its grid.
pub struct LevelPlan {
    pub player_pos: Coords,
    pub monsters: Seq<MonsterSpawn>,
    /// State of the generator when the level is done.
    pub seed: u64,
}

/// The contents of level number `level` made from a generator in the state
/// `seed`. The player starts on a free tile found by a spawn search, or on
/// the home tile if the search finds none. Then the monsters are placed.
pub open spec fn planned(level: u8, seed: u64) -> LevelPlan {
    let start = spawn_pos(level_cells(), seed);
    let placed = monsters_placed(
        level_cells(),
        style_monsters(level),
        style_extra_draws(level),
        start.1,
        monsters_wanted(level),
    );
    LevelPlan {
        player_pos: match start.0 {
            Some(pos) => pos,
            None => home_tile(),
        },
        monsters: placed.0,
        seed: placed.1,
    }
}

/// Making a level is repeatable: from the same level number and the same
/// seed come the same grid, the same start and the same monsters.
pub proof fn lemma_same_seed_same_level(level: u8, seed: u64, first: LevelPlan, second: LevelPlan)
    requires
        first == planned(level, seed),
        second == planned(level, seed),
    ensures
        first == second,
        first.player_pos == second.player_pos,
        first.monsters == second.monsters,
        first.seed == second.seed,
{
}

/// A level: its grid, where the player starts, and its monsters.
pub struct Level {
    pub map: TileMap,
    pub player_pos: Coords,
    pub monsters: Vec<MonsterSpawn>,
}

/// Makes level number `level` from the generator `rng`.
///
/// The grid is the level grid. The player and every monster stand on a
/// free tile. A monster for which no free tile is found is left out, so
/// the level may hold fewer monsters than it wanted. Everything is
/// determined by `level` and the state of `rng`.
pub fn make_level(level: u8, rng: &mut SeededRng) -> (out: Level)
    ensures
        out.map@ == level_cells(),
        (LevelPlan { player_pos: out.player_pos, monsters: out.monsters@, seed: final(rng).seed })
            == planned(level, old(rng).seed),
        !solid_at(out.map@, out.player_pos.x as int, out.player_pos.y as int),
        forall|i: int|
            0 <= i < out.monsters.len() ==> !solid_at(
                out.map@,
                (#[trigger] out.monsters@[i]).pos.x as int,
                out.monsters@[i].pos.y as int,
            ),
        out.monsters.len() <= monsters_wanted(level),
{
    let map = make_map();
    let ghost cells = map@;
    let player_pos = match choose_spawn_pos(&map, rng) {
        Ok(pos) => pos,
        Err(_) => {
            proof {
                lemma_home_tile_is_floor();
            }
            Coords::new(2, 2)
        },
    };
    let style = make_by_level(level);
    let count = monster_count(level);
    let ghost kinds = style.monsters@;
    let ghost extra = style.extra_draws;
    let ghost first = rng.seed;
    let mut monsters: Vec<MonsterSpawn> = Vec::new();
    let mut left: u32 = count;
    while left > 0
        invariant
            cells == map@,
            kinds == style.monsters@,
            extra == style.extra_draws,
            0 < style.monsters.len() <= 3,
            0 <= left <= count,
            monsters.len() <= count - left,
            monsters_placed(cells, kinds, extra, first, count as nat) == (
                monsters@ + monsters_placed(cells, kinds, extra, rng.seed, left as nat).0,
                monsters_placed(cells, kinds, extra, rng.seed, left as nat).1,
            ),
            forall|i: int|
                0 <= i < monsters.len() ==> !solid_at(
                    cells,
                    (#[trigger] monsters@[i]).pos.x as int,
                    monsters@[i].pos.y as int,
                ),
        decreases left,
    {
        let ghost seed = rng.seed;
        let ghost so_far = monsters@;
        let kind = style.rand_front_loaded(rng);
        match choose_spawn_pos(&map, rng) {
            Ok(pos) => {
                monsters.push(MonsterSpawn { kind, pos });
            },
            Err(_) => {},
        }
        proof {
            let rest = monsters_placed(cells, kinds, extra, rng.seed, (left - 1) as nat);
            let here = monsters_placed(cells, kinds, extra, seed, left as nat);
            assert(here.1 == rest.1);
            assert(so_far + here.0 =~= monsters@ + rest.0);
        }
        left = left - 1;
    }
    proof {
        assert(monsters@ + Seq::<MonsterSpawn>::empty() =~= monsters@);
    }
    Level { map, player_pos, monsters }
}

} // verus!
