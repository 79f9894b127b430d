//! Creatures and the sides they fight on.

use vstd::prelude::*;

verus! {

/// The side a creature or a projectile belongs to.
#[derive(Copy, Clone, PartialEq, Eq, Structural, Debug)]
pub enum Team {
    Players,
    Monsters,
}

/// Hit points of a creature. `hp` never exceeds `hp_max`; it may drop to
/// zero or below, at which point the creature is dead.
#[derive(Copy, Clone, PartialEq, Eq, Structural, Debug)]
pub struct CreatureStats {
    pub team: Team,
    pub hp: i16,
    pub hp_max: i16,
}

impl CreatureStats {
    /// Hit points are within their maximum.
    pub open spec fn wf(self) -> bool {
        self.hp <= self.hp_max
    }

    /// A creature at full health.
    pub fn new(team: Team, hp_max: i16) -> (stats: CreatureStats)
        ensures
            stats == (CreatureStats { team, hp: hp_max, hp_max }),
            stats.wf(),
    {
        CreatureStats { team, hp: hp_max, hp_max }
    }

    /// Whether the creature has any hit points left.
    pub fn is_alive(&self) -> (alive: bool)
        ensures
            alive == (self.hp > 0),
    {
        self.hp > 0
    }
}

} // verus!
