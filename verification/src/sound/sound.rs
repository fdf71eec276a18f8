//! A sound: bytes embedded in the executable or the path of an audio file,
//! with an optional duration after which playing is cut.

use crate::path::{path_resolve, resolved};
use crate::text::opt_view;
use std::time::Duration;
use vstd::prelude::*;

verus! {

/// What `std::time::Duration::from_millis` returns for `millis`.
pub uninterp spec fn duration_of_millis(millis: u64) -> Duration;

/// Calls `Duration::from_millis`, a function of its argument alone; the result
/// is named `duration_of_millis(millis)`.
#[verifier::external_body]
fn duration_from_millis(millis: u64) -> (d: Duration)
    ensures
        d == duration_of_millis(millis),
{
    Duration::from_millis(millis)
}

/// Where the audio data of a sound comes from.
#[derive(Debug, PartialEq, Eq)]
enum SoundSource {
    Embedded(&'static [u8]),
    File(String),
}

impl Clone for SoundSource {
    fn clone(&self) -> (r: Self)
        ensures
            r == *self,
    {
        match self {
            SoundSource::Embedded(bytes) => SoundSource::Embedded(*bytes),
            SoundSource::File(path) => SoundSource::File(path.clone()),
        }
    }
}

/// The source of a sound, as plain values.
pub enum SourceView {
    Embedded(Seq<u8>),
    File(Seq<char>),
}

/// A sound, as plain values: its source and the milliseconds after which
/// it is cut, if any.
pub struct SoundView {
    pub source: SourceView,
    pub cut_millis: Option<u64>,
}

/// A sound, either embedded in the executable or given by the path of an
/// audio file, with an optional duration after which playing is cut.
///
/// In configuration, a sound is either the path of its file, or a table
/// with a path and a duration.
#[derive(Debug, PartialEq, Eq)]
pub struct Sound {
    source: SoundSource,
    cut_millis: Option<u64>,
}

impl View for Sound {
    type V = SoundView;

    closed spec fn view(&self) -> SoundView {
        SoundView {
            source: match self.source {
                SoundSource::Embedded(bytes) => SourceView::Embedded(bytes@),
                SoundSource::File(path) => SourceView::File(path@),
            },
            cut_millis: self.cut_millis,
        }
    }
}

impl Clone for Sound {
    fn clone(&self) -> (r: Self)
        ensures
            r == *self,
    {
        Sound { source: self.source.clone(), cut_millis: self.cut_millis }
    }
}

/// The sound after `resolve_path`: a file path is resolved, an embedded
/// sound is kept.
pub open spec fn resolved_sound(s: SoundView, base_dir: Seq<char>, home: Option<Seq<char>>) -> SoundView {
    match s.source {
        SourceView::File(p) => SoundView {
            source: SourceView::File(resolved(p, base_dir, home)),
            cut_millis: s.cut_millis,
        },
        SourceView::Embedded(_) => s,
    }
}

impl Sound {
    /// Build a sound from bytes embedded in the executable, cut after the
    /// given duration
    pub fn embedded(bytes: &'static [u8], cut_millis: u64) -> (s: Self)
        ensures
            s@ == (SoundView { source: SourceView::Embedded(bytes@), cut_millis: Some(cut_millis) }),
    {
        Sound { source: SoundSource::Embedded(bytes), cut_millis: Some(cut_millis) }
    }

    /// A sound read from the file at `path`, never cut
    pub fn from_path(path: String) -> (s: Self)
        ensures
            s@ == (SoundView { source: SourceView::File(path@), cut_millis: None }),
    {
        Sound { source: SoundSource::File(path), cut_millis: None }
    }

    /// The sound of a table with an optional path and an optional duration in
    /// milliseconds: `None` when the path is missing; a zero duration means
    /// no cut.
    pub fn from_table(path: Option<String>, cut_millis: Option<u64>) -> (s: Option<Self>)
        ensures
            path is None ==> s is None,
            path matches Some(p) ==> s matches Some(s) && s@ == (SoundView {
                source: SourceView::File(p@),
                cut_millis: match cut_millis {
                    Some(ms) if ms != 0 => Some(ms),
                    _ => None,
                },
            }),
    {
        match path {
            Some(p) => {
                let cut = match cut_millis {
                    Some(ms) => if ms != 0 { Some(ms) } else { None },
                    None => None,
                };
                Some(Sound { source: SoundSource::File(p), cut_millis: cut })
            },
            None => None,
        }
    }

    /// Duration after which the sound is cut, if any
    pub fn cut(&self) -> (r: Option<Duration>)
        ensures
            r == match self@.cut_millis {
                Some(ms) => Some(duration_of_millis(ms)),
                None => None,
            },
    {
        match self.cut_millis {
            Some(ms) => Some(duration_from_millis(ms)),
            None => None,
        }
    }

    /// The path of the sound file, when the sound isn't embedded
    pub fn path(&self) -> (r: Option<&str>)
        ensures
            opt_view(r) == match self@.source {
                SourceView::File(p) => Some(p),
                SourceView::Embedded(_) => None,
            },
    {
        match &self.source {
            SoundSource::Embedded(_) => None,
            SoundSource::File(path) => Some(path.as_str()),
        }
    }

    /// The embedded bytes, when the sound is embedded
    pub fn embedded_bytes(&self) -> (r: Option<&'static [u8]>)
        ensures
            match self@.source {
                SourceView::Embedded(b) => r matches Some(x) && x@ == b,
                SourceView::File(_) => r is None,
            },
    {
        match &self.source {
            SoundSource::Embedded(bytes) => Some(*bytes),
            SoundSource::File(_) => None,
        }
    }

    /// Expand the tilde and make the path absolute, relative paths
    /// being taken from the given directory
    pub fn resolve_path(&mut self, base_dir: &str, home_dir: Option<&str>)
        ensures
            final(self)@ == resolved_sound(old(self)@, base_dir@, opt_view(home_dir)),
    {
        let resolved_source = match &self.source {
            SoundSource::File(path) => Some(path_resolve(path.as_str(), base_dir, home_dir)),
            SoundSource::Embedded(_) => None,
        };
        if let Some(p) = resolved_source {
            self.source = SoundSource::File(p);
        }
    }
}

} // verus!
