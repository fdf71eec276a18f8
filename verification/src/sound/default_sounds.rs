//! The sounds embedded in the executable.
//!
//! Names here are as near as possible from the file names in the resources
//! directory but without the number, syntax inconsistency and redundancy.
//! Durations cut the files, which are usually much longer than what can be
//! heard in them.

use super::sound::{Sound, SoundView, SourceView};
use super::sound_library::{
    distinct_names, entries_view, is_first_named, lemma_first_named_unique, lookup, SoundLibrary,
};
use vstd::prelude::*;

verus! {

/// Name of the sound played when the `play-sound` action doesn't specify one
pub const DEFAULT_SOUND_NAME: &'static str = "store-scanner";

/// How many sounds are embedded
pub const EMBEDDED_SOUND_COUNT: usize = 15;

/// A named sound from embedded bytes, cut after `cut_millis`
pub fn embedded(name: &str, bytes: &'static [u8], cut_millis: u64) -> (r: (String, Sound))
    ensures
        r.0@ == name@,
        r.1@ == (SoundView { source: SourceView::Embedded(bytes@), cut_millis: Some(cut_millis) }),
{
    (name.to_owned(), Sound::embedded(bytes, cut_millis))
}

/// The names of the embedded sounds and the milliseconds after which each
/// is cut, in the order of their resources.
pub open spec fn embedded_sound_table() -> Seq<(Seq<char>, u64)> {
    seq![
        ("2"@, 2000u64),
        ("90s-game-ui-6"@, 1300u64),
        ("beep-6"@, 1000u64),
        ("beep-beep"@, 1200u64),
        ("beep-warning"@, 1200u64),
        ("bell-chord"@, 1900u64),
        ("car-horn"@, 1700u64),
        ("convenience-store-ring"@, 1700u64),
        ("cow-bells"@, 1400u64),
        ("pickup"@, 500u64),
        ("positive-beeps"@, 600u64),
        ("short-beep-tone"@, 400u64),
        ("slash"@, 800u64),
        ("store-scanner"@, 250u64),
        ("success"@, 2000u64),
    ]
}

/// The embedded sounds, given the bytes of their resources in table order.
pub open spec fn embedded_entries(bytes: Seq<Seq<u8>>) -> Seq<(Seq<char>, SoundView)> {
    Seq::new(
        embedded_sound_table().len(),
        |i: int|
            (
                embedded_sound_table()[i].0,
                SoundView {
                    source: SourceView::Embedded(bytes[i]),
                    cut_millis: Some(embedded_sound_table()[i].1),
                },
            ),
    )
}

pub open spec fn bytes_views(bytes: Seq<&'static [u8]>) -> Seq<Seq<u8>> {
    Seq::new(bytes.len(), |i: int| bytes[i]@)
}

/// The sounds embedded in the executable, `bytes` holding the content of
/// each resource in the order of the table
pub fn embedded_sounds(bytes: Vec<&'static [u8]>) -> (r: Vec<(String, Sound)>)
    requires
        bytes@.len() == EMBEDDED_SOUND_COUNT,
    ensures
        entries_view(r@) == embedded_entries(bytes_views(bytes@)),
        r@.len() == EMBEDDED_SOUND_COUNT,
        forall|k: int|
            0 <= k < EMBEDDED_SOUND_COUNT ==> (#[trigger] r@[k]).0@ == embedded_sound_table()[k].0
                && r@[k].1@ == (SoundView {
                source: SourceView::Embedded(bytes@[k]@),
                cut_millis: Some(embedded_sound_table()[k].1),
            }),
{
    let mut r: Vec<(String, Sound)> = Vec::new();
    r.push(embedded("2", bytes[0], 2000));
    r.push(embedded("90s-game-ui-6", bytes[1], 1300));
    r.push(embedded("beep-6", bytes[2], 1000));
    r.push(embedded("beep-beep", bytes[3], 1200));
    r.push(embedded("beep-warning", bytes[4], 1200));
    r.push(embedded("bell-chord", bytes[5], 1900));
    r.push(embedded("car-horn", bytes[6], 1700));
    r.push(embedded("convenience-store-ring", bytes[7], 1700));
    r.push(embedded("cow-bells", bytes[8], 1400));
    r.push(embedded("pickup", bytes[9], 500));
    r.push(embedded("positive-beeps", bytes[10], 600));
    r.push(embedded("short-beep-tone", bytes[11], 400));
    r.push(embedded("slash", bytes[12], 800));
    r.push(embedded("store-scanner", bytes[13], 250));
    r.push(embedded("success", bytes[14], 2000));
    assert(entries_view(r@) =~= embedded_entries(bytes_views(bytes@)));
    assert forall|k: int| 0 <= k < EMBEDDED_SOUND_COUNT implies (#[trigger] r@[k]).0@
        == embedded_sound_table()[k].0 && r@[k].1@ == (SoundView {
        source: SourceView::Embedded(bytes@[k]@),
        cut_millis: Some(embedded_sound_table()[k].1),
    }) by {
        assert(entries_view(r@)[k] == embedded_entries(bytes_views(bytes@))[k]);
    }
    r
}

/// The library of the embedded sounds, `bytes` holding the content of each
/// resource in the order of the table
pub fn default_sounds(bytes: Vec<&'static [u8]>) -> (r: SoundLibrary)
    requires
        bytes@.len() == EMBEDDED_SOUND_COUNT,
    ensures
        r@ == embedded_entries(bytes_views(bytes@)),
        lookup(r@, DEFAULT_SOUND_NAME@) is Some,
        distinct_names(r@),
        forall|k: int|
            0 <= k < EMBEDDED_SOUND_COUNT ==> lookup(r@, #[trigger] embedded_sound_table()[k].0)
                == Some(
                SoundView {
                    source: SourceView::Embedded(bytes@[k]@),
                    cut_millis: Some(embedded_sound_table()[k].1),
                },
            ),
{
    let r = SoundLibrary::from_static(embedded_sounds(bytes));
    proof {
        lemma_embedded_sound_resources(bytes_views(bytes@));
        lemma_embedded_names_distinct();
        lemma_default_sound_is_embedded();
        let e = embedded_entries(bytes_views(bytes@));
        let k = choose|k: int| 0 <= k < embedded_sound_table().len()
            && embedded_sound_table()[k].0 == DEFAULT_SOUND_NAME@;
        assert(e[k].0 == DEFAULT_SOUND_NAME@);
        assert(super::sound_library::is_first_named(e, DEFAULT_SOUND_NAME@, k));
    }
    r
}

/// Each embedded sound carries the resource of its own row of the table, and
/// its own cut: looking up the name of row `k` gives the `k`-th resource.
pub proof fn lemma_embedded_sound_resources(bytes: Seq<Seq<u8>>)
    requires
        bytes.len() == EMBEDDED_SOUND_COUNT,
    ensures
        forall|k: int|
            0 <= k < EMBEDDED_SOUND_COUNT ==> lookup(
                embedded_entries(bytes),
                #[trigger] embedded_sound_table()[k].0,
            ) == Some(
                SoundView {
                    source: SourceView::Embedded(bytes[k]),
                    cut_millis: Some(embedded_sound_table()[k].1),
                },
            ),
{
    lemma_embedded_names_distinct();
    let e = embedded_entries(bytes);
    assert forall|k: int| 0 <= k < EMBEDDED_SOUND_COUNT implies lookup(
        e,
        #[trigger] embedded_sound_table()[k].0,
    ) == Some(
        SoundView {
            source: SourceView::Embedded(bytes[k]),
            cut_millis: Some(embedded_sound_table()[k].1),
        },
    ) by {
        let name = embedded_sound_table()[k].0;
        assert forall|j: int| 0 <= j < k implies e[j].0 != name by {
            assert(e[j].0 == embedded_sound_table()[j].0);
        }
        assert(is_first_named(e, name, k));
        lemma_first_named_unique(e, name, k);
    }
}

/// The default sound is one of the embedded sounds.
pub proof fn lemma_default_sound_is_embedded()
    ensures
        exists|k: int|
            0 <= k < embedded_sound_table().len() && #[trigger] embedded_sound_table()[k].0
                == DEFAULT_SOUND_NAME@,
{
    reveal_strlit("store-scanner");
    assert(embedded_sound_table()[13].0 == DEFAULT_SOUND_NAME@);
}

/// No two embedded sounds have the same name.
pub proof fn lemma_embedded_names_distinct()
    ensures
        forall|i: int, j: int|
            0 <= i < j < embedded_sound_table().len() ==> embedded_sound_table()[i].0
                != embedded_sound_table()[j].0,
{
    reveal_strlit("2");
    reveal_strlit("90s-game-ui-6");
    reveal_strlit("beep-6");
    reveal_strlit("beep-beep");
    reveal_strlit("beep-warning");
    reveal_strlit("bell-chord");
    reveal_strlit("car-horn");
    reveal_strlit("convenience-store-ring");
    reveal_strlit("cow-bells");
    reveal_strlit("pickup");
    reveal_strlit("positive-beeps");
    reveal_strlit("short-beep-tone");
    reveal_strlit("slash");
    reveal_strlit("store-scanner");
    reveal_strlit("success");
    let t = embedded_sound_table();
    assert forall|i: int, j: int| 0 <= i < j < t.len() implies t[i].0 != t[j].0 by {
        if t[i].0.len() == t[j].0.len() {
            assert(t[i].0[0] != t[j].0[0] || t[i].0[1] != t[j].0[1] || t[i].0[5] != t[j].0[5]);
        }
    }
}

} // verus!
