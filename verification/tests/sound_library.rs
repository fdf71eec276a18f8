use bacon::{check_sound_name, parse_period_millis, Sound, SoundLibrary};
use std::time::Duration;

/// The entries of a `sounds` map written in TOML.
fn entries(text: &str) -> Vec<(String, Sound)> {
    let table: toml::Table = text.parse().unwrap();
    table
        .into_iter()
        .map(|(name, value)| {
            let sound = match value {
                toml::Value::String(path) => Sound::from_path(path),
                toml::Value::Table(t) => Sound::from_table(
                    t.get("path").and_then(|p| p.as_str()).map(|p| p.to_string()),
                    t.get("duration").and_then(|d| d.as_str()).map(|d| parse_period_millis(d).unwrap()),
                )
                .unwrap(),
                other => panic!("unexpected sound {other:?}"),
            };
            (name, sound)
        })
        .collect()
}

fn library(text: &str) -> Result<SoundLibrary, String> {
    SoundLibrary::from_entries(entries(text))
}

#[test]
fn test_sound_name_check() {
    for name in ["bepop", "90s-game-ui-6", "a b"] {
        assert!(check_sound_name(name).is_ok(), "{name:?} should be valid");
    }
    for name in ["", " bepop", "bepop ", "a,b", "a=b"] {
        assert!(
            check_sound_name(name).is_err(),
            "{name:?} should be invalid"
        );
    }
    let err = library(r#""a,b" = "/tmp/a.mp3""#).unwrap_err();
    assert!(err.to_string().contains("invalid sound name"));
}

#[test]
fn test_sound_path_resolution() {
    let mut library = library(
        r#"
        rel = "audio/bepop.mp3"
        abs = "/opt/audio/tada.ogg"
        "#,
    )
    .unwrap();
    library.resolve_paths("/project", None);
    assert_eq!(
        library.get("rel").unwrap().path(),
        Some("/project/audio/bepop.mp3")
    );
    assert_eq!(
        library.get("abs").unwrap().path(),
        Some("/opt/audio/tada.ogg")
    );
}

#[test]
fn test_sound_library_deserialization() {
    let library = library(
        r#"
        bepop = "~/audio/bepop.mp3"
        tada = { path = "/tmp/tada.ogg", duration = "3s" }
        whole = { path = "/tmp/whole.ogg", duration = "none" }
        "#,
    )
    .unwrap();
    assert_eq!(library.get("bepop").unwrap().cut(), None);
    assert_eq!(library.get("whole").unwrap().cut(), None);
    assert_eq!(
        library.get("tada").unwrap().cut(),
        Some(Duration::from_secs(3))
    );
    assert!(library.get("unknown").is_none());
}

#[test]
fn invalid_sound_name_message_quotes_the_name() {
    assert_eq!(
        check_sound_name("a=b").unwrap_err(),
        "invalid sound name \"a=b\": a name can't be empty, be padded with spaces, or contain ',' or '='"
    );
    assert!(check_sound_name("\tbepop").is_err());
    assert!(check_sound_name("bepop\n").is_err());
    assert!(check_sound_name("bé pop").is_ok());
}

#[test]
fn from_entries_reports_the_first_invalid_name() {
    let entries = vec![
        ("ok".to_string(), Sound::from_path("/a".to_string())),
        (" first".to_string(), Sound::from_path("/b".to_string())),
        ("second=".to_string(), Sound::from_path("/c".to_string())),
    ];
    let err = SoundLibrary::from_entries(entries).unwrap_err();
    assert!(err.contains("\" first\""), "{err}");
}

#[test]
fn get_after_set() {
    let mut library = SoundLibrary::new();
    assert!(library.get("beep").is_none());
    library.set("beep".to_string(), Sound::from_path("/a.mp3".to_string()));
    library.set("tada".to_string(), Sound::from_path("/b.mp3".to_string()));
    assert_eq!(library.get("beep").unwrap().path(), Some("/a.mp3"));
    library.set("beep".to_string(), Sound::from_path("/c.mp3".to_string()));
    assert_eq!(library.get("beep").unwrap().path(), Some("/c.mp3"));
    assert_eq!(library.get("tada").unwrap().path(), Some("/b.mp3"));
}

#[test]
fn set_replaces_the_first_entry_of_the_name() {
    let mut library = SoundLibrary::from_static(vec![
        ("beep".to_string(), Sound::from_path("/1".to_string())),
        ("beep".to_string(), Sound::from_path("/2".to_string())),
    ]);
    assert_eq!(library.get("beep").unwrap().path(), Some("/1"));
    library.set("beep".to_string(), Sound::from_path("/3".to_string()));
    assert_eq!(library.get("beep").unwrap().path(), Some("/3"));
    let other = SoundLibrary::from_static(vec![(
        "beep".to_string(),
        Sound::from_path("/3".to_string()),
    ), (
        "beep".to_string(),
        Sound::from_path("/2".to_string()),
    )]);
    assert_eq!(library, other);
}

#[test]
fn apply_replaces_sounds_of_same_name() {
    let mut mine = library(
        r#"
        beep = "/mine/beep.mp3"
        kept = "/mine/kept.mp3"
        "#,
    )
    .unwrap();
    let theirs = library(
        r#"
        beep = "/theirs/beep.mp3"
        new = "/theirs/new.mp3"
        "#,
    )
    .unwrap();
    mine.apply(&theirs);
    assert_eq!(mine.get("beep").unwrap().path(), Some("/theirs/beep.mp3"));
    assert_eq!(mine.get("kept").unwrap().path(), Some("/mine/kept.mp3"));
    assert_eq!(mine.get("new").unwrap().path(), Some("/theirs/new.mp3"));
}

#[test]
fn apply_lets_the_last_entry_of_a_name_win() {
    let mut mine = SoundLibrary::default();
    let theirs = SoundLibrary::from_static(vec![
        ("beep".to_string(), Sound::from_path("/1".to_string())),
        ("beep".to_string(), Sound::from_path("/2".to_string())),
    ]);
    mine.apply(&theirs);
    assert_eq!(mine.get("beep").unwrap().path(), Some("/2"));
}

#[test]
fn resolving_paths_twice_changes_nothing() {
    let mut library = library(
        r#"
        rel = "audio/bepop.mp3"
        home = "~/audio/tada.ogg"
        "#,
    )
    .unwrap();
    library.resolve_paths("/project/", Some("/home/me"));
    assert_eq!(library.get("rel").unwrap().path(), Some("/project/audio/bepop.mp3"));
    assert_eq!(library.get("home").unwrap().path(), Some("/home/me/audio/tada.ogg"));
    let once = library.clone();
    library.resolve_paths("/project/", Some("/home/me"));
    assert_eq!(library, once);
}

#[test]
fn sound_table_forms() {
    let cut = Sound::from_table(Some("/a.ogg".to_string()), Some(1500)).unwrap();
    assert_eq!(cut.cut(), Some(Duration::from_millis(1500)));
    assert_eq!(cut.path(), Some("/a.ogg"));
    let uncut = Sound::from_table(Some("/a.ogg".to_string()), Some(0)).unwrap();
    assert_eq!(uncut.cut(), None);
    let default = Sound::from_table(Some("/a.ogg".to_string()), None).unwrap();
    assert_eq!(default.cut(), None);
    assert!(Sound::from_table(None, Some(100)).is_none());
}

#[test]
fn embedded_sound() {
    static BYTES: [u8; 3] = [1, 2, 3];
    let sound = Sound::embedded(&BYTES, 250);
    assert_eq!(sound.cut(), Some(Duration::from_millis(250)));
    assert_eq!(sound.path(), None);
    assert_eq!(sound.embedded_bytes(), Some(&BYTES[..]));
    let mut resolved = sound.clone();
    resolved.resolve_path("/project", None);
    assert_eq!(resolved, sound);
}

#[test]
fn periods() {
    assert_eq!(parse_period_millis("none"), Some(0));
    assert_eq!(parse_period_millis("1500ms"), Some(1500));
    assert_eq!(parse_period_millis("3s"), Some(3000));
    assert_eq!(parse_period_millis("0s"), Some(0));
    assert_eq!(parse_period_millis("18446744073709551615ms"), Some(u64::MAX));
    assert_eq!(parse_period_millis("18446744073709551616ms"), None);
    assert_eq!(parse_period_millis("18446744073709552s"), None);
    assert_eq!(parse_period_millis("ms"), None);
    assert_eq!(parse_period_millis("s"), None);
    assert_eq!(parse_period_millis("3"), None);
    assert_eq!(parse_period_millis("1.5s"), None);
    assert_eq!(parse_period_millis(" 3s"), None);
    assert_eq!(parse_period_millis("None"), None);
}

#[test]
fn applying_twice_is_applying_once() {
    let mut lib = SoundLibrary::from_static(vec![
        ("beep".to_string(), Sound::from_path("/0".to_string())),
        ("beep".to_string(), Sound::from_path("/dup".to_string())),
        ("kept".to_string(), Sound::from_path("/k".to_string())),
    ]);
    let other = SoundLibrary::from_static(vec![
        ("beep".to_string(), Sound::from_path("/1".to_string())),
        ("new".to_string(), Sound::from_path("/n".to_string())),
        ("beep".to_string(), Sound::from_path("/2".to_string())),
    ]);
    lib.apply(&other);
    let once = lib.clone();
    lib.apply(&other);
    assert_eq!(lib, once);
    lib.apply(&SoundLibrary::new());
    assert_eq!(lib, once);
    assert!(check_sound_name("bepop").is_ok());
}
