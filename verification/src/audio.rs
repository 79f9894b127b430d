//! The sounds that the simulation asks the audio service to play.

use vstd::prelude::*;

verus! {

/// A sound effect.
#[derive(Copy, Clone, PartialEq, Eq, Structural, Debug)]
pub enum Sound {
    PickupHeal,
    PickupCoins,
    PickupKey,
    PlayerShoot,
    PlayerHurt,
    MonsterHurt,
}

impl Sound {
    /// The asset that holds the sound.
    pub open spec fn file(self) -> Seq<char> {
        match self {
            Sound::PickupHeal => "pickup_heal.ogg"@,
            Sound::PickupCoins => "pickup_coins.ogg"@,
            Sound::PickupKey => "pickup_key.ogg"@,
            Sound::PlayerShoot => "audio/player_shoot.ogg"@,
            Sound::PlayerHurt => "audio/player_hurt.ogg"@,
            Sound::MonsterHurt => "audio/monster_hurt.ogg"@,
        }
    }

    pub fn file_name(&self) -> (name: &'static str)
        ensures
            name@ == self.file(),
    {
        match self {
            Sound::PickupHeal => "pickup_heal.ogg",
            Sound::PickupCoins => "pickup_coins.ogg",
            Sound::PickupKey => "pickup_key.ogg",
            Sound::PlayerShoot => "audio/player_shoot.ogg",
            Sound::PlayerHurt => "audio/player_hurt.ogg",
            Sound::MonsterHurt => "audio/monster_hurt.ogg",
        }
    }
}

} // verus!
