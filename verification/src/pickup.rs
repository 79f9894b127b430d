//! Things that lie in the level and can be picked up.

use vstd::prelude::*;
use crate::audio::Sound;
use crate::combat::CreatureStats;
use crate::game::{GameInfo, GameState, NextState};
use crate::physics::MapCollisionEvent;
use crate::rng::{rng_i32, SeededRng};
use crate::tile::Tile;
use crate::tilemap::{grid_height, grid_width, solid_at, Coords, TileMap};

verus! {

/// The kinds of pickup.
#[derive(Copy, Clone, PartialEq, Eq, Structural, Debug)]
pub enum Pickup {
    Apple,
    MedPack,
    NextLevel,
    Coin,
    CoinPile,
    SilverKey,
    GoldKey,
    RedKey,
    GreenKey,
}

/// What a pickup gives to whoever takes it.
#[derive(Copy, Clone, PartialEq, Eq, Structural, Debug)]
pub enum StatGain {
    /// Hit points, up to the maximum.
    Health(i16),
    /// The way to the next level.
    NextLevel,
    Coins(i32),
    /// A key, as the bit that stands for it.
    Key(u8),
}

/// How large a sprite is drawn.
#[derive(Copy, Clone, PartialEq, Eq, Structural, Debug)]
pub enum SpriteSize {
    Basic,
    Half,
}

/// A sprite: its size and its cell in the sprite sheet.
#[derive(Copy, Clone, PartialEq, Eq, Structural, Debug)]
pub struct Sprite3d {
    pub size: SpriteSize,
    pub x: u8,
    pub y: u8,
}

/// Height at which a pickup floats, in hundredths of a tile.
pub const PICKUP_HEIGHT: u8 = 25;

/// Radius of a pickup, in hundredths of a tile. The player reaches a
/// pickup when the two are no farther apart than their radii together.
pub const PICKUP_RADIUS: u8 = 50;

/// A pickup to be put into the world at a tile, with its height above the
/// floor and its radius in hundredths of a tile. It always faces the
/// camera.
#[derive(Copy, Clone, PartialEq, Eq, Structural, Debug)]
pub struct PickupSpawn {
    pub pickup: Pickup,
    pub pos: Coords,
    pub height: u8,
    pub radius: u8,
    pub sprite: Sprite3d,
    pub on_collision: MapCollisionEvent,
}

/// The pickup as it is put into the world at `pos`.
pub open spec fn pickup_at(pickup: Pickup, pos: Coords) -> PickupSpawn {
    PickupSpawn {
        pickup,
        pos,
        height: PICKUP_HEIGHT,
        radius: PICKUP_RADIUS,
        sprite: pickup.sprite_of(),
        on_collision: MapCollisionEvent::Stop,
    }
}

/// Why nothing was spawned.
#[derive(Copy, Clone, PartialEq, Eq, Structural, Debug)]
pub enum SpawnError {
    /// No free tile was found within the allowed number of attempts.
    NoSpotFound,
}

impl SpawnError {
    pub fn message(&self) -> (text: &'static str)
        ensures
            text@ == "Could not find a proper item spawn pos"@,
    {
        "Could not find a proper item spawn pos"
    }
}

/// Number of tiles that a spawn search looks at before it gives up.
pub const SPAWN_ATTEMPTS: u32 = 4096;

impl Pickup {
    pub open spec fn stat_gain(self) -> StatGain {
        match self {
            Pickup::Apple => StatGain::Health(15),
            Pickup::MedPack => StatGain::Health(45),
            Pickup::NextLevel => StatGain::NextLevel,
            Pickup::Coin => StatGain::Coins(1),
            Pickup::CoinPile => StatGain::Coins(5),
            Pickup::SilverKey => StatGain::Key(0x1),
            Pickup::GoldKey => StatGain::Key(0x2),
            Pickup::RedKey => StatGain::Key(0x4),
            Pickup::GreenKey => StatGain::Key(0x8),
        }
    }

    /// Health can be taken only by a creature that lacks some; everything
    /// else can always be taken.
    pub open spec fn takable(self, stats: CreatureStats) -> bool {
        match self.stat_gain() {
            StatGain::Health(_) => stats.hp < stats.hp_max,
            _ => true,
        }
    }

    /// The creature after it took the pickup: health rises by the gain, but
    /// not above the maximum.
    pub open spec fn stats_after(self, stats: CreatureStats) -> CreatureStats {
        match self.stat_gain() {
            StatGain::Health(gain) => CreatureStats {
                hp: if stats.hp + gain < stats.hp_max {
                    (stats.hp + gain) as i16
                } else {
                    stats.hp_max
                },
                ..stats
            },
            _ => stats,
        }
    }

    /// The session after the pickup was taken: coins are added to the
    /// purse, a key sets its bit.
    pub open spec fn info_after(self, info: GameInfo) -> GameInfo {
        match self.stat_gain() {
            StatGain::Coins(gain) => GameInfo { coins: (info.coins + gain) as i32, ..info },
            StatGain::Key(mask) => GameInfo { key_flags: info.key_flags | mask, ..info },
            _ => info,
        }
    }

    /// The pending transition after the pickup was taken.
    pub open spec fn next_after(self, next: NextState) -> NextState {
        match self.stat_gain() {
            StatGain::NextLevel => NextState { pending: Some(GameState::NextLevel) },
            _ => next,
        }
    }

    /// The coins that the pickup holds.
    pub open spec fn coins(self) -> int {
        match self.stat_gain() {
            StatGain::Coins(gain) => gain as int,
            _ => 0,
        }
    }

    pub open spec fn sound_of(self) -> Option<Sound> {
        match self.stat_gain() {
            StatGain::Health(_) => Some(Sound::PickupHeal),
            StatGain::NextLevel => None,
            StatGain::Coins(_) => Some(Sound::PickupCoins),
            StatGain::Key(_) => Some(Sound::PickupKey),
        }
    }

    pub open spec fn sprite_of(self) -> Sprite3d {
        match self {
            Pickup::NextLevel => Sprite3d { size: SpriteSize::Basic, x: 1, y: 5 },
            Pickup::Coin => Sprite3d { size: SpriteSize::Half, x: 6, y: 10 },
            Pickup::CoinPile => Sprite3d { size: SpriteSize::Half, x: 7, y: 10 },
            Pickup::MedPack => Sprite3d { size: SpriteSize::Half, x: 8, y: 10 },
            Pickup::Apple => Sprite3d { size: SpriteSize::Half, x: 9, y: 10 },
            Pickup::SilverKey => Sprite3d { size: SpriteSize::Half, x: 6, y: 11 },
            Pickup::GoldKey => Sprite3d { size: SpriteSize::Half, x: 7, y: 11 },
            Pickup::RedKey => Sprite3d { size: SpriteSize::Half, x: 8, y: 11 },
            Pickup::GreenKey => Sprite3d { size: SpriteSize::Half, x: 9, y: 11 },
        }
    }

    pub fn to_stat_gain(&self) -> (gain: StatGain)
        ensures
            gain == self.stat_gain(),
    {
        match self {
            Pickup::Apple => StatGain::Health(15),
            Pickup::MedPack => StatGain::Health(45),
            Pickup::NextLevel => StatGain::NextLevel,
            Pickup::Coin => StatGain::Coins(1),
            Pickup::CoinPile => StatGain::Coins(5),
            Pickup::SilverKey => StatGain::Key(0x1),
            Pickup::GoldKey => StatGain::Key(0x2),
            Pickup::RedKey => StatGain::Key(0x4),
            Pickup::GreenKey => StatGain::Key(0x8),
        }
    }

    /// Whether the creature may take the pickup.
    pub fn can_take(&self, stats: &CreatureStats) -> (ok: bool)
        ensures
            ok == self.takable(*stats),
            self.stat_gain() is Health && stats.hp == stats.hp_max ==> !ok,
    {
        match self.to_stat_gain() {
            StatGain::Health(_) => stats.hp < stats.hp_max,
            _ => true,
        }
    }

    /// Gives the pickup to the creature. Taking health never lifts hit
    /// points above their maximum. The purse must have room for the coins.
    pub fn take(&self, game_info: &mut GameInfo, stats: &mut CreatureStats, game_state: &mut NextState)
        requires
            old(game_info).coins + self.coins() <= i32::MAX,
        ensures
            *final(stats) == self.stats_after(*old(stats)),
            *final(game_info) == self.info_after(*old(game_info)),
            *final(game_state) == self.next_after(*old(game_state)),
            final(stats).hp <= final(stats).hp_max || final(stats).hp == old(stats).hp,
            old(stats).wf() ==> final(stats).wf() && final(stats).hp >= old(stats).hp,
    {
        match self.to_stat_gain() {
            StatGain::Health(gain) => {
                let raised: i32 = stats.hp as i32 + gain as i32;
                if raised < stats.hp_max as i32 {
                    stats.hp = raised as i16;
                } else {
                    stats.hp = stats.hp_max;
                }
            },
            StatGain::NextLevel => {
                game_state.set(GameState::NextLevel);
            },
            StatGain::Coins(gain) => {
                game_info.coins = game_info.coins + gain;
            },
            StatGain::Key(mask) => {
                game_info.key_flags = game_info.key_flags | mask;
            },
        }
    }

    /// The sound that is heard when the pickup is taken.
    pub fn sound(&self) -> (sound: Option<Sound>)
        ensures
            sound == self.sound_of(),
    {
        match self.to_stat_gain() {
            StatGain::Health(_) => Some(Sound::PickupHeal),
            StatGain::NextLevel => None,
            StatGain::Coins(_) => Some(Sound::PickupCoins),
            StatGain::Key(_) => Some(Sound::PickupKey),
        }
    }

    /// The asset of that sound.
    pub fn to_sound(&self) -> (file: Option<&'static str>)
        ensures
            match self.sound_of() {
                Some(sound) => file matches Some(name) && name@ == sound.file(),
                None => file is None,
            },
    {
        match self.sound() {
            Some(sound) => Some(sound.file_name()),
            None => None,
        }
    }

    pub fn make_sprite(&self) -> (sprite: Sprite3d)
        ensures
            sprite == self.sprite_of(),
    {
        match self {
            Pickup::NextLevel => Sprite3d { size: SpriteSize::Basic, x: 1, y: 5 },
            Pickup::Coin => Sprite3d { size: SpriteSize::Half, x: 6, y: 10 },
            Pickup::CoinPile => Sprite3d { size: SpriteSize::Half, x: 7, y: 10 },
            Pickup::MedPack => Sprite3d { size: SpriteSize::Half, x: 8, y: 10 },
            Pickup::Apple => Sprite3d { size: SpriteSize::Half, x: 9, y: 10 },
            Pickup::SilverKey => Sprite3d { size: SpriteSize::Half, x: 6, y: 11 },
            Pickup::GoldKey => Sprite3d { size: SpriteSize::Half, x: 7, y: 11 },
            Pickup::RedKey => Sprite3d { size: SpriteSize::Half, x: 8, y: 11 },
            Pickup::GreenKey => Sprite3d { size: SpriteSize::Half, x: 9, y: 11 },
        }
    }

    /// The pickup as it is put into the world at `pos`.
    pub fn spawn_at_pos(&self, pos: Coords) -> (spawn: PickupSpawn)
        ensures
            spawn == pickup_at(*self, pos),
    {
        PickupSpawn {
            pickup: *self,
            pos,
            height: PICKUP_HEIGHT,
            radius: PICKUP_RADIUS,
            sprite: self.make_sprite(),
            on_collision: MapCollisionEvent::Stop,
        }
    }
}

/// The tile `(x, z)` as a place to spawn on, if it is free: a tile is
/// free when it is not solid.
pub open spec fn free_spot(cells: Seq<Seq<Tile>>, x: int, z: int) -> Option<Coords> {
    if solid_at(cells, x, z) {
        None
    } else {
        Some(Coords { x: x as i32, y: z as i32 })
    }
}

/// The grid has tiles that do not lie on its edge.
pub open spec fn has_interior(cells: Seq<Seq<Tile>>) -> bool {
    grid_width(cells) >= 3 && grid_height(cells) >= 3
}

/// A spawn search of at most `attempts` draws on a generator in the state
/// `seed`: the place found, if any, and the state of the generator
/// afterwards. Each attempt draws a column and then a row, both off the
/// edge of the grid, and the first free tile drawn is taken.
pub open spec fn spawn_search(cells: Seq<Seq<Tile>>, seed: u64, attempts: nat) -> (Option<Coords>, u64)
    decreases attempts,
{
    if attempts == 0 {
        (None, seed)
    } else {
        let x = rng_i32(seed, 1, (grid_width(cells) - 1) as i32);
        let z = rng_i32(x.1, 1, (grid_height(cells) - 1) as i32);
        match free_spot(cells, x.0 as int, z.0 as int) {
            Some(pos) => (Some(pos), z.1),
            None => spawn_search(cells, z.1, (attempts - 1) as nat),
        }
    }
}

/// The place that `choose_spawn_pos` finds, if any, and the state of the
/// generator afterwards. A grid without interior has no place, and
/// nothing is drawn.
pub open spec fn spawn_pos(cells: Seq<Seq<Tile>>, seed: u64) -> (Option<Coords>, u64) {
    if has_interior(cells) {
        spawn_search(cells, seed, SPAWN_ATTEMPTS as nat)
    } else {
        (None, seed)
    }
}

/// On a grid without a free tile every spawn search fails, after all its
/// attempts and whatever is drawn.
pub proof fn lemma_solid_grid_has_no_spot(cells: Seq<Seq<Tile>>, seed: u64)
    requires
        forall|x: int, z: int| solid_at(cells, x, z),
    ensures
        spawn_pos(cells, seed).0 is None,
{
    lemma_search_finds_nothing(cells, seed, SPAWN_ATTEMPTS as nat);
}

proof fn lemma_search_finds_nothing(cells: Seq<Seq<Tile>>, seed: u64, attempts: nat)
    requires
        forall|x: int, z: int| solid_at(cells, x, z),
    ensures
        spawn_search(cells, seed, attempts).0 is None,
    decreases attempts,
{
    if attempts > 0 {
        let x = rng_i32(seed, 1, (grid_width(cells) - 1) as i32);
        let z = rng_i32(x.1, 1, (grid_height(cells) - 1) as i32);
        assert(solid_at(cells, x.0 as int, z.0 as int));
        lemma_search_finds_nothing(cells, z.1, (attempts - 1) as nat);
    }
}

/// A place that a spawn search finds is a free tile.
pub proof fn lemma_spot_is_free(cells: Seq<Seq<Tile>>, seed: u64, attempts: nat)
    ensures
        spawn_search(cells, seed, attempts).0 matches Some(pos) ==> !solid_at(
            cells,
            pos.x as int,
            pos.y as int,
        ),
    decreases attempts,
{
    if attempts > 0 {
        let x = rng_i32(seed, 1, (grid_width(cells) - 1) as i32);
        let z = rng_i32(x.1, 1, (grid_height(cells) - 1) as i32);
        lemma_spot_is_free(cells, z.1, (attempts - 1) as nat);
    }
}

/// Takes the tile `(x, z)` as a place to spawn on if it is free.
pub fn try_spawn_at(map: &TileMap, x: i32, z: i32) -> (spot: Option<Coords>)
    ensures
        spot == free_spot(map@, x as int, z as int),
{
    if map.is_solid(x, z) {
        None
    } else {
        Some(Coords::new(x, z))
    }
}

/// Looks for a free tile to spawn something on. Tiles off the edge of the
/// map are drawn at random, at most `SPAWN_ATTEMPTS` times, and the first
/// that is free is returned. The search never runs on: when no draw finds
/// a free tile it fails with `SpawnError::NoSpotFound`.
pub fn choose_spawn_pos(map: &TileMap, rng: &mut SeededRng) -> (found: Result<Coords, SpawnError>)
    ensures
        spawn_pos(map@, old(rng).seed).1 == final(rng).seed,
        match spawn_pos(map@, old(rng).seed).0 {
            Some(pos) => found == Ok::<Coords, SpawnError>(pos),
            None => found == Err::<Coords, SpawnError>(SpawnError::NoSpotFound),
        },
        found matches Ok(pos) ==> !solid_at(map@, pos.x as int, pos.y as int),
{
    let width: i32 = map.width();
    let height: i32 = map.height();
    if width < 3 || height < 3 {
        return Err(SpawnError::NoSpotFound);
    }
    let ghost cells = map@;
    let ghost start = rng.seed;
    let mut left: u32 = SPAWN_ATTEMPTS;
    while left > 0
        invariant
            cells == map@,
            start == old(rng).seed,
            width == grid_width(cells),
            height == grid_height(cells),
            width >= 3,
            height >= 3,
            0 <= left <= SPAWN_ATTEMPTS,
            spawn_search(cells, start, SPAWN_ATTEMPTS as nat) == spawn_search(cells, rng.seed, left as nat),
        decreases left,
    {
        let ghost seed = rng.seed;
        let x = rng.i32(1, width - 1);
        let z = rng.i32(1, height - 1);
        proof {
            let dx = rng_i32(seed, 1, (grid_width(cells) - 1) as i32);
            let dz = rng_i32(dx.1, 1, (grid_height(cells) - 1) as i32);
            assert(dx.0 == x && dz.0 == z && dz.1 == rng.seed);
            assert(spawn_search(cells, seed, left as nat) == match free_spot(
                cells,
                x as int,
                z as int,
            ) {
                Some(pos) => (Some(pos), rng.seed),
                None => spawn_search(cells, rng.seed, (left - 1) as nat),
            });
        }
        match try_spawn_at(map, x, z) {
            Some(pos) => {
                return Ok(pos);
            },
            None => {},
        }
        left = left - 1;
    }
    Err(SpawnError::NoSpotFound)
}

impl Pickup {
    /// Finds a place for the pickup and describes it as it is to be put
    /// into the world there.
    pub fn spawn(&self, map: &TileMap, rng: &mut SeededRng) -> (spawned: Result<PickupSpawn, SpawnError>)
        ensures
            spawn_pos(map@, old(rng).seed).1 == final(rng).seed,
            match spawn_pos(map@, old(rng).seed).0 {
                Some(pos) => spawned == Ok::<PickupSpawn, SpawnError>(pickup_at(*self, pos)),
                None => spawned == Err::<PickupSpawn, SpawnError>(SpawnError::NoSpotFound),
            },
    {
        match choose_spawn_pos(map, rng) {
            Ok(pos) => Ok(self.spawn_at_pos(pos)),
            Err(e) => Err(e),
        }
    }
}

/// What a player holds after walking over pickups.
pub struct Harvest {
    pub stats: CreatureStats,
    pub info: GameInfo,
    pub next: NextState,
    /// The pickups taken, which are to be removed, in order.
    pub taken: Seq<usize>,
}

/// The harvest after the player met the pickup at `index`: it is taken if
/// it is within reach and the player may take it, and left otherwise.
pub open spec fn picked(h: Harvest, pickup: Pickup, index: int, in_reach: bool) -> Harvest {
    if in_reach && pickup.takable(h.stats) {
        Harvest {
            stats: pickup.stats_after(h.stats),
            info: pickup.info_after(h.info),
            next: pickup.next_after(h.next),
            taken: h.taken.push(index as usize),
        }
    } else {
        h
    }
}

/// The harvest after the player met the first `n` pickups in order.
pub open spec fn harvested(h: Harvest, pickups: Seq<Pickup>, in_reach: Seq<bool>, n: nat) -> Harvest
    decreases n,
{
    if n == 0 {
        h
    } else {
        picked(harvested(h, pickups, in_reach, (n - 1) as nat), pickups[n - 1], n - 1, in_reach[n - 1])
    }
}

/// The coins of those of the first `n` pickups that are within reach.
pub open spec fn coins_in_reach(pickups: Seq<Pickup>, in_reach: Seq<bool>, n: nat) -> int
    decreases n,
{
    if n == 0 {
        0
    } else {
        coins_in_reach(pickups, in_reach, (n - 1) as nat) + if in_reach[n - 1] {
            pickups[n - 1].coins()
        } else {
            0
        }
    }
}

proof fn lemma_coins_grow(pickups: Seq<Pickup>, in_reach: Seq<bool>, a: nat, b: nat)
    requires
        a <= b,
    ensures
        0 <= coins_in_reach(pickups, in_reach, a) <= coins_in_reach(pickups, in_reach, b),
    decreases b,
{
    if a < b {
        lemma_coins_grow(pickups, in_reach, a, (b - 1) as nat);
    } else if b > 0 {
        lemma_coins_grow(pickups, in_reach, (b - 1) as nat, (b - 1) as nat);
    }
}

/// A pickup of health met at full health is left where it is, and
/// nothing changes. A pickup that is taken never lifts hit points above
/// their maximum.
pub proof fn lemma_health_is_capped(h: Harvest, pickup: Pickup, index: int, in_reach: bool)
    requires
        h.stats.wf(),
    ensures
        picked(h, pickup, index, in_reach).stats.wf(),
        picked(h, pickup, index, in_reach).stats.hp_max == h.stats.hp_max,
        pickup.stat_gain() is Health && h.stats.hp == h.stats.hp_max ==> picked(
            h,
            pickup,
            index,
            in_reach,
        ) == h,
{
}

/// Lets the player collect the pickups within reach.
///
/// `in_reach[i]` says whether pickup `i` is close enough to the player.
/// The pickups are met in order. One that is within reach is taken if the
/// player may take it: its gain goes to the player or to the session, and
/// its index is returned so that it can be removed from the world and its
/// sound played. The purse must have room for the coins within reach.
pub fn check_pickups(
    stats: &mut CreatureStats,
    pickups: &Vec<Pickup>,
    in_reach: &Vec<bool>,
    game: &mut GameInfo,
    game_state: &mut NextState,
) -> (taken: Vec<usize>)
    requires
        pickups.len() == in_reach.len(),
        old(game).coins + coins_in_reach(pickups@, in_reach@, pickups.len() as nat) <= i32::MAX,
    ensures
        (Harvest { stats: *final(stats), info: *final(game), next: *final(game_state), taken: taken@ })
            == harvested(
            Harvest { stats: *old(stats), info: *old(game), next: *old(game_state), taken: Seq::empty() },
            pickups@,
            in_reach@,
            pickups.len() as nat,
        ),
{
    let ghost start = Harvest { stats: *stats, info: *game, next: *game_state, taken: Seq::empty() };
    let mut taken: Vec<usize> = Vec::new();
    let mut i: usize = 0;
    while i < pickups.len()
        invariant
            0 <= i <= pickups.len(),
            pickups.len() == in_reach.len(),
            start.info.coins + coins_in_reach(pickups@, in_reach@, pickups.len() as nat) <= i32::MAX,
            game.coins <= start.info.coins + coins_in_reach(pickups@, in_reach@, i as nat),
            (Harvest { stats: *stats, info: *game, next: *game_state, taken: taken@ }) == harvested(
                start,
                pickups@,
                in_reach@,
                i as nat,
            ),
        decreases pickups.len() - i,
    {
        let pickup = pickups[i];
        proof {
            lemma_coins_grow(pickups@, in_reach@, (i + 1) as nat, pickups.len() as nat);
            lemma_coins_grow(pickups@, in_reach@, i as nat, i as nat);
        }
        if in_reach[i] && pickup.can_take(stats) {
            pickup.take(game, stats, game_state);
            taken.push(i);
        }
        i = i + 1;
    }
    taken
}

} // verus!
