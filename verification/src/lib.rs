//! Sounds played on request, and the lines of a build report.

pub mod analysis;
pub mod path;
pub mod result;
pub mod sound;
pub mod text;

pub use analysis::item_accumulator::ItemAccumulator;
pub use result::line::{Line, Mission};
pub use result::line_type::{CommandStream, Kind, LineType};
pub use result::tline::{CommandOutputLine, TLine, TString};
pub use sound::default_sounds::{
    default_sounds, embedded, embedded_sounds, DEFAULT_SOUND_NAME, EMBEDDED_SOUND_COUNT,
};
pub use sound::period::parse_period_millis;
pub use sound::player_step::{
    interruption, player_step, Interruption, PlayOutcome, PlayerAction, PlayerEvent,
};
pub use sound::sound::Sound;
pub use sound::sound_library::{check_sound_name, SoundLibrary};
pub use sound::sound_player::{player_library, requested_sound};
pub use sound::volume::Volume;
pub use sound::PlaySoundCommand;
