//! The order of the steps of one tick of the simulation.
//!
//! The steps of a tick form a chain: each reads what the steps before it
//! have written in the same tick, and never what a later step will write.

use vstd::prelude::*;

verus! {

/// A step of the simulation.
#[derive(Copy, Clone, PartialEq, Eq, Structural, Debug)]
pub enum SimStep {
    /// Input is read and the player moves.
    PlayerInput,
    /// Monsters look for the player.
    AiLos,
    /// Monsters decide whether to fire.
    AiFire,
    /// Weapons fire and projectiles appear.
    FireWeapons,
    /// Bodies move and meet the grid.
    Physics,
    /// Projectiles meet creatures.
    Combat,
    /// The player collects pickups.
    Pickups,
    /// What is drawn is brought up to date.
    Render,
}

/// Number of steps in a tick.
pub const STEP_COUNT: usize = 8;

/// The steps of a tick in the order in which they run.
pub open spec fn tick_steps() -> Seq<SimStep> {
    seq![
        SimStep::PlayerInput,
        SimStep::AiLos,
        SimStep::AiFire,
        SimStep::FireWeapons,
        SimStep::Physics,
        SimStep::Combat,
        SimStep::Pickups,
        SimStep::Render,
    ]
}

impl SimStep {
    /// Place of the step in the tick, from 0.
    pub open spec fn rank_of(self) -> nat {
        match self {
            SimStep::PlayerInput => 0,
            SimStep::AiLos => 1,
            SimStep::AiFire => 2,
            SimStep::FireWeapons => 3,
            SimStep::Physics => 4,
            SimStep::Combat => 5,
            SimStep::Pickups => 6,
            SimStep::Render => 7,
        }
    }

    pub fn rank(&self) -> (r: u8)
        ensures
            r == self.rank_of(),
            r < STEP_COUNT,
            tick_steps()[r as int] == *self,
    {
        match self {
            SimStep::PlayerInput => 0,
            SimStep::AiLos => 1,
            SimStep::AiFire => 2,
            SimStep::FireWeapons => 3,
            SimStep::Physics => 4,
            SimStep::Combat => 5,
            SimStep::Pickups => 6,
            SimStep::Render => 7,
        }
    }

    /// Whether this step runs before `other` in every tick.
    pub fn runs_before(&self, other: &SimStep) -> (before: bool)
        ensures
            before == (self.rank_of() < other.rank_of()),
    {
        self.rank() < other.rank()
    }
}

/// The steps of a tick in the order in which they run.
pub fn tick_order() -> (steps: Vec<SimStep>)
    ensures
        steps@ == tick_steps(),
        steps.len() == STEP_COUNT,
        forall|i: int| 0 <= i < steps.len() ==> (#[trigger] steps@[i]).rank_of() == i,
{
    let mut steps: Vec<SimStep> = Vec::new();
    steps.push(SimStep::PlayerInput);
    steps.push(SimStep::AiLos);
    steps.push(SimStep::AiFire);
    steps.push(SimStep::FireWeapons);
    steps.push(SimStep::Physics);
    steps.push(SimStep::Combat);
    steps.push(SimStep::Pickups);
    steps.push(SimStep::Render);
    assert(steps@ =~= tick_steps());
    steps
}

} // verus!
