//! Sounds by name, and what the sound player decides.

pub mod default_sounds;
pub mod period;
pub mod player_step;
pub mod sound;
pub mod sound_library;
pub mod sound_player;
pub mod volume;

use self::volume::Volume;
use vstd::prelude::*;

verus! {

/// A command to play a sound
#[derive(Debug, Clone, PartialEq, Eq, Hash, Default)]
pub struct PlaySoundCommand {
    pub name: Option<String>,
    pub volume: Volume,
}

} // verus!
