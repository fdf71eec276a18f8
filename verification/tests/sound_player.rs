use bacon::{
    player_library, requested_sound, PlaySoundCommand, Sound, SoundLibrary, Volume,
    DEFAULT_SOUND_NAME,
};

fn command(name: Option<&str>) -> PlaySoundCommand {
    PlaySoundCommand {
        name: name.map(|n| n.to_string()),
        volume: Volume { percent: 50 },
    }
}

fn sample_library() -> SoundLibrary {
    SoundLibrary::from_static(vec![
        (DEFAULT_SOUND_NAME.to_string(), Sound::from_path("default.mp3".to_string())),
        ("beep".to_string(), Sound::from_path("/beep.mp3".to_string())),
    ])
}

#[test]
fn a_command_without_name_asks_for_the_default_sound() {
    let library = sample_library();
    let sound = requested_sound(&library, &command(None)).unwrap();
    assert_eq!(sound.path(), Some("default.mp3"));
    let sound = requested_sound(&library, &command(Some("beep"))).unwrap();
    assert_eq!(sound.path(), Some("/beep.mp3"));
}

#[test]
fn an_unknown_name_is_reported() {
    let library = sample_library();
    assert_eq!(
        requested_sound(&library, &command(Some("boop"))).unwrap_err(),
        "boop"
    );
    let empty = SoundLibrary::new();
    assert_eq!(
        requested_sound(&empty, &command(None)).unwrap_err(),
        DEFAULT_SOUND_NAME
    );
}

#[test]
fn user_sounds_replace_defaults_and_paths_are_resolved() {
    let user = SoundLibrary::from_static(vec![
        ("beep".to_string(), Sound::from_path("audio/mine.mp3".to_string())),
        ("tada".to_string(), Sound::from_path("~/tada.ogg".to_string())),
    ]);
    let sounds = player_library(&sample_library(), &user, "/project", Some("/home/me"));
    assert_eq!(sounds.get("beep").unwrap().path(), Some("/project/audio/mine.mp3"));
    assert_eq!(sounds.get("tada").unwrap().path(), Some("/home/me/tada.ogg"));
    assert_eq!(
        sounds.get(DEFAULT_SOUND_NAME).unwrap().path(),
        Some("/project/default.mp3")
    );
}

use bacon::{interruption, player_step, Interruption, PlayOutcome, PlayerAction, PlayerEvent};

#[test]
fn the_stop_signal_interrupts_before_a_newer_sound() {
    assert_eq!(interruption(true, true), Some(Interruption::Die));
    assert_eq!(interruption(true, false), Some(Interruption::Die));
    assert_eq!(interruption(false, true), Some(Interruption::NewSound));
    assert_eq!(interruption(false, false), None);
}

#[test]
fn player_thread_steps() {
    assert_eq!(player_step(PlayerEvent::DieSignal), PlayerAction::Stop);
    assert_eq!(
        player_step(PlayerEvent::SoundRequest { die_pending: false }),
        PlayerAction::Play
    );
    assert_eq!(
        player_step(PlayerEvent::SoundRequest { die_pending: true }),
        PlayerAction::Wait
    );
    assert_eq!(player_step(PlayerEvent::RequestChannelClosed), PlayerAction::Stop);
    assert_eq!(
        player_step(PlayerEvent::Played(PlayOutcome::Finished)),
        PlayerAction::Wait
    );
    assert_eq!(
        player_step(PlayerEvent::Played(PlayOutcome::Interrupted(Interruption::NewSound))),
        PlayerAction::Wait
    );
    assert_eq!(
        player_step(PlayerEvent::Played(PlayOutcome::Interrupted(Interruption::Die))),
        PlayerAction::Stop
    );
    assert_eq!(
        player_step(PlayerEvent::Played(PlayOutcome::Failed)),
        PlayerAction::Wait
    );
}
