//! What the sound player decides: the library it plays from, and the sound
//! that a command asks for.

use super::default_sounds::DEFAULT_SOUND_NAME;
use super::sound::{resolved_sound, Sound, SoundView};
use super::sound_library::{
    applied, is_first_named, last_named, lemma_first_named_unique, lemma_lookup_after_apply,
    lookup, resolved_entries, Entries, SoundLibrary,
};
use super::PlaySoundCommand;
use crate::text::opt_view;
use vstd::prelude::*;

verus! {

/// The library a sound player plays from: the default sounds, with the
/// user's sounds applied on top of them, all paths resolved from `base_dir`
pub fn player_library(
    defaults: &SoundLibrary,
    library: &SoundLibrary,
    base_dir: &str,
    home_dir: Option<&str>,
) -> (r: SoundLibrary)
    ensures
        r@ == resolved_entries(applied(defaults@, library@), base_dir@, opt_view(home_dir)),
{
    let mut sounds = defaults.clone();
    sounds.apply(library);
    sounds.resolve_paths(base_dir, home_dir);
    sounds
}

/// The name of the sound a command asks for: its own, or the default one
pub open spec fn requested_name(psc: PlaySoundCommand) -> Seq<char> {
    match psc.name {
        Some(n) => n@,
        None => DEFAULT_SOUND_NAME@,
    }
}

/// The sound a command asks for, or the name that no sound has.
///
/// The sound is resolved before it's played, so that a bad name is reported
/// to the caller.
pub fn requested_sound<'a>(sounds: &'a SoundLibrary, psc: &PlaySoundCommand) -> (r: Result<&'a Sound, String>)
    ensures
        match lookup(sounds@, requested_name(*psc)) {
            Some(s) => r matches Ok(x) && x@ == s,
            None => r matches Err(n) && n@ == requested_name(*psc),
        },
{
    let name: &str = match &psc.name {
        Some(n) => n.as_str(),
        None => DEFAULT_SOUND_NAME,
    };
    match sounds.get(name) {
        Some(sound) => Ok(sound),
        None => Err(name.to_owned()),
    }
}

/// Looking a name up after resolving the paths gives the resolved sound of
/// that name.
pub proof fn lemma_lookup_resolved(e: Entries, name: Seq<char>, base_dir: Seq<char>, home: Option<Seq<char>>)
    ensures
        lookup(resolved_entries(e, base_dir, home), name) == match lookup(e, name) {
            Some(s) => Some(resolved_sound(s, base_dir, home)),
            None => None,
        },
{
    let r = resolved_entries(e, base_dir, home);
    if exists|i: int| is_first_named(e, name, i) {
        let i = choose|i: int| is_first_named(e, name, i);
        assert(is_first_named(r, name, i));
        lemma_first_named_unique(e, name, i);
        lemma_first_named_unique(r, name, i);
    } else if exists|i: int| is_first_named(r, name, i) {
        let i = choose|i: int| is_first_named(r, name, i);
        assert forall|j: int| 0 <= j < i implies e[j].0 != name by {
            assert(r[j].0 == e[j].0);
        }
        assert(is_first_named(e, name, i));
    }
}

/// In the player's library, a sound of the user's library replaces the
/// default sound of the same name; other default sounds are kept; each has
/// its path resolved.
pub proof fn lemma_player_library_lookup(
    defaults: Entries,
    library: Entries,
    name: Seq<char>,
    base_dir: Seq<char>,
    home: Option<Seq<char>>,
)
    ensures
        lookup(resolved_entries(applied(defaults, library), base_dir, home), name) == match last_named(library, name) {
            Some(s) => Some(resolved_sound(s, base_dir, home)),
            None => match lookup(defaults, name) {
                Some(s) => Some(resolved_sound(s, base_dir, home)),
                None => None,
            },
        },
{
    lemma_lookup_after_apply(defaults, library, name);
    lemma_lookup_resolved(applied(defaults, library), name, base_dir, home);
}

} // verus!
