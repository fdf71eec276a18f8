//! The decisions of the sound player's thread: what interrupts a sound, and
//! what the thread does on each event it receives.

use vstd::prelude::*;

verus! {

/// What interrupts a sound being played
#[derive(Debug, Clone, Copy, PartialEq, Eq, Structural)]
pub enum Interruption {
    /// a newer sound was requested
    NewSound,
    /// the player is stopping
    Die,
}

/// How the playing of a sound ended
#[derive(Debug, Clone, Copy, PartialEq, Eq, Structural)]
pub enum PlayOutcome {
    /// the sound was played to its end or to its cut
    Finished,
    /// the sound was interrupted
    Interrupted(Interruption),
    /// the sound could not be played
    Failed,
}

/// What the sound player's thread receives
#[derive(Debug, Clone, Copy, PartialEq, Eq, Structural)]
pub enum PlayerEvent {
    /// the signal to stop
    DieSignal,
    /// a sound to play, and whether a stop signal is waiting too
    SoundRequest { die_pending: bool },
    /// the channel of requests is closed
    RequestChannelClosed,
    /// the playing of a sound ended
    Played(PlayOutcome),
}

/// What the sound player's thread does next
#[derive(Debug, Clone, Copy, PartialEq, Eq, Structural)]
pub enum PlayerAction {
    /// end the thread
    Stop,
    /// play the requested sound
    Play,
    /// wait for the next event
    Wait,
}

/// The interruption of a sound being played: the stop signal comes first,
/// then a newer sound.
pub open spec fn spec_interruption(die_received: bool, new_sound_waiting: bool) -> Option<Interruption> {
    if die_received {
        Some(Interruption::Die)
    } else if new_sound_waiting {
        Some(Interruption::NewSound)
    } else {
        None
    }
}

/// The thread stops on the stop signal, when the requests can't be received
/// any more, and when a sound was interrupted because the player stops; it
/// skips a sound requested while a stop is waiting; it plays any other
/// requested sound; after a sound ended otherwise, or failed, it waits for
/// the next event.
pub open spec fn spec_player_step(event: PlayerEvent) -> PlayerAction {
    match event {
        PlayerEvent::DieSignal => PlayerAction::Stop,
        PlayerEvent::SoundRequest { die_pending } => if die_pending {
            PlayerAction::Wait
        } else {
            PlayerAction::Play
        },
        PlayerEvent::RequestChannelClosed => PlayerAction::Stop,
        PlayerEvent::Played(PlayOutcome::Interrupted(Interruption::Die)) => PlayerAction::Stop,
        PlayerEvent::Played(_) => PlayerAction::Wait,
    }
}

/// What interrupts a sound being played, if anything
pub fn interruption(die_received: bool, new_sound_waiting: bool) -> (r: Option<Interruption>)
    ensures
        r == spec_interruption(die_received, new_sound_waiting),
{
    if die_received {
        Some(Interruption::Die)
    } else if new_sound_waiting {
        Some(Interruption::NewSound)
    } else {
        None
    }
}

/// What the sound player's thread does on `event`
pub fn player_step(event: PlayerEvent) -> (a: PlayerAction)
    ensures
        a == spec_player_step(event),
{
    match event {
        PlayerEvent::DieSignal => PlayerAction::Stop,
        PlayerEvent::SoundRequest { die_pending } => {
            if die_pending {
                PlayerAction::Wait
            } else {
                PlayerAction::Play
            }
        },
        PlayerEvent::RequestChannelClosed => PlayerAction::Stop,
        PlayerEvent::Played(PlayOutcome::Interrupted(Interruption::Die)) => PlayerAction::Stop,
        PlayerEvent::Played(_) => PlayerAction::Wait,
    }
}

} // verus!
