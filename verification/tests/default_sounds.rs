use bacon::{default_sounds, embedded, embedded_sounds, DEFAULT_SOUND_NAME, EMBEDDED_SOUND_COUNT};
use std::time::Duration;

fn no_bytes() -> Vec<&'static [u8]> {
    vec![&[][..]; EMBEDDED_SOUND_COUNT]
}

/// Check the coherence of the hand written list of embedded sounds
#[test]
fn test_default_sounds() {
    assert!(default_sounds(no_bytes()).get(DEFAULT_SOUND_NAME).is_some());
    let mut names: Vec<String> = embedded_sounds(no_bytes())
        .into_iter()
        .map(|(name, _)| name)
        .collect();
    let count = names.len();
    names.sort_unstable();
    names.dedup();
    assert_eq!(names.len(), count, "duplicate sound name");
}

#[test]
fn default_sound_is_cut_early() {
    let sounds = default_sounds(no_bytes());
    let sound = sounds.get("store-scanner").unwrap();
    assert_eq!(sound.cut(), Some(Duration::from_millis(250)));
    assert_eq!(sound.path(), None);
    assert_eq!(
        sounds.get("convenience-store-ring").unwrap().cut(),
        Some(Duration::from_millis(1700))
    );
}

#[test]
fn embedded_sounds_carry_their_bytes() {
    static FIRST: [u8; 2] = [7, 8];
    let mut bytes = no_bytes();
    bytes[0] = &FIRST;
    let sounds = default_sounds(bytes);
    assert_eq!(sounds.get("2").unwrap().embedded_bytes(), Some(&FIRST[..]));
    let (name, sound) = embedded("x", &FIRST, 10);
    assert_eq!(name, "x");
    assert_eq!(sound.cut(), Some(Duration::from_millis(10)));
}
