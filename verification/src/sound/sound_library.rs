//! Sounds by name.

use super::sound::{resolved_sound, Sound, SoundView, SourceView};
use crate::path::{is_absolute, lemma_resolved_is_absolute_and_stable};
use crate::text::opt_view;
use crate::text::{char_is_whitespace, chars_of, is_white_space};
use vstd::prelude::*;

verus! {

/// The entries of a library, in order: a name and a sound.
pub type Entries = Seq<(Seq<char>, SoundView)>;

/// Entry `i` is the first one named `name`.
pub open spec fn is_first_named(e: Entries, name: Seq<char>, i: int) -> bool {
    &&& 0 <= i < e.len()
    &&& e[i].0 == name
    &&& forall|j: int| 0 <= j < i ==> e[j].0 != name
}

/// The sound of the first entry named `name`, if any.
pub open spec fn lookup(e: Entries, name: Seq<char>) -> Option<SoundView> {
    if exists|i: int| is_first_named(e, name, i) {
        Some(e[choose|i: int| is_first_named(e, name, i)].1)
    } else {
        None
    }
}

/// The entries after setting `name` to `s`: the first entry of that name
/// gets the sound, or a new entry is added at the end.
pub open spec fn with_sound(e: Entries, name: Seq<char>, s: SoundView) -> Entries {
    if exists|i: int| is_first_named(e, name, i) {
        e.update(choose|i: int| is_first_named(e, name, i), (name, s))
    } else {
        e.push((name, s))
    }
}

/// The entries after setting, in order, each entry of `other`.
pub open spec fn applied(e: Entries, other: Entries) -> Entries
    decreases other.len(),
{
    if other.len() == 0 {
        e
    } else {
        with_sound(applied(e, other.drop_last()), other.last().0, other.last().1)
    }
}

/// The sound of the last entry of `e` named `name`, if any.
pub open spec fn last_named(e: Entries, name: Seq<char>) -> Option<SoundView>
    decreases e.len(),
{
    if e.len() == 0 {
        None
    } else if e.last().0 == name {
        Some(e.last().1)
    } else {
        last_named(e.drop_last(), name)
    }
}

/// No two entries have the same name.
pub open spec fn distinct_names(e: Entries) -> bool {
    forall|i: int, j: int| 0 <= i < j < e.len() ==> e[i].0 != e[j].0
}

/// The entries with each sound's path resolved.
pub open spec fn resolved_entries(e: Entries, base_dir: Seq<char>, home: Option<Seq<char>>) -> Entries {
    Seq::new(e.len(), |i: int| (e[i].0, resolved_sound(e[i].1, base_dir, home)))
}

/// A name can be used in a `play-sound(name=...)` action, whose parsing
/// splits on ',' and '=' and trims the values: it is not empty, not padded
/// with whitespace, and holds neither ',' nor '='.
pub open spec fn is_valid_sound_name(name: Seq<char>) -> bool {
    &&& name.len() > 0
    &&& !is_white_space(name[0])
    &&& !is_white_space(name.last())
    &&& !name.contains(',')
    &&& !name.contains('=')
}

/// What `format!("{:?}", s)` gives for a string: `s` quoted and escaped.
pub uninterp spec fn debug_quoted(s: Seq<char>) -> Seq<char>;

/// Calls the `Debug` formatting of `str`, which quotes and escapes it; the
/// result is named `debug_quoted(s@)`.
#[verifier::external_body]
fn str_debug(s: &str) -> (r: String)
    ensures
        r@ == debug_quoted(s@),
{
    format!("{:?}", s)
}

/// The message telling that `name` can't be a sound name.
pub open spec fn invalid_sound_name_message(name: Seq<char>) -> Seq<char> {
    "invalid sound name "@ + debug_quoted(name)
        + ": a name can't be empty, be padded with spaces, or contain ',' or '='"@
}

/// Ensure the name can be used in a `play-sound(name=...)` action,
/// whose parsing splits on ',' and '=' and trims the values
pub fn check_sound_name(name: &str) -> (r: Result<(), String>)
    ensures
        r is Ok <==> is_valid_sound_name(name@),
        r matches Err(m) ==> m@ == invalid_sound_name_message(name@),
{
    let chars = chars_of(name);
    let n = chars.len();
    let mut valid = n > 0;
    if valid {
        valid = !char_is_whitespace(chars[0]) && !char_is_whitespace(chars[n - 1]);
    }
    let mut i: usize = 0;
    while i < n
        invariant
            chars@ == name@,
            n == chars@.len(),
            i <= n,
            valid == (n > 0 && !is_white_space(name@[0]) && !is_white_space(name@.last())
                && forall|j: int| 0 <= j < i ==> name@[j] != ',' && name@[j] != '='),
        decreases n - i,
    {
        if chars[i] == ',' || chars[i] == '=' {
            valid = false;
        }
        i = i + 1;
    }
    proof {
        if name@.contains(',') {
            let j = choose|j: int| 0 <= j < name@.len() && name@[j] == ',';
            assert(name@[j] == ',');
        }
        if name@.contains('=') {
            let j = choose|j: int| 0 <= j < name@.len() && name@[j] == '=';
            assert(name@[j] == '=');
        }
    }
    if valid {
        Ok(())
    } else {
        let prefix = "invalid sound name ";
        let suffix = ": a name can't be empty, be padded with spaces, or contain ',' or '='";
        let mut message = prefix.to_owned();
        let quoted = str_debug(name);
        message.append(quoted.as_str());
        message.append(suffix);
        Err(message)
    }
}

/// Sounds by name.
///
/// The default library, embedded in the executable, is built at start,
/// while the one of the user comes from the `sounds` config map and
/// is applied on top of it.
#[derive(Debug, PartialEq, Eq)]
pub struct SoundLibrary {
    sounds: Vec<(String, Sound)>,
}

pub open spec fn entries_view(v: Seq<(String, Sound)>) -> Entries {
    Seq::new(v.len(), |i: int| (v[i].0@, v[i].1@))
}

impl View for SoundLibrary {
    type V = Entries;

    closed spec fn view(&self) -> Entries {
        entries_view(self.sounds@)
    }
}

impl Default for SoundLibrary {
    fn default() -> (r: Self)
        ensures
            r@ == Seq::<(Seq<char>, SoundView)>::empty(),
    {
        Self::new()
    }
}

impl Clone for SoundLibrary {
    fn clone(&self) -> (r: Self)
        ensures
            r@ == self@,
    {
        let mut sounds: Vec<(String, Sound)> = Vec::new();
        let n = self.sounds.len();
        for i in 0..n
            invariant
                n == self.sounds@.len(),
                sounds@.len() == i,
                forall|j: int| 0 <= j < i ==> #[trigger] sounds@[j] == self.sounds@[j],
        {
            let name = self.sounds[i].0.clone();
            let sound = self.sounds[i].1.clone();
            sounds.push((name, sound));
        }
        let r = SoundLibrary { sounds };
        assert(r@ =~= self@);
        r
    }
}

impl SoundLibrary {
    pub fn new() -> (r: Self)
        ensures
            r@ == Seq::<(Seq<char>, SoundView)>::empty(),
    {
        let r = Self { sounds: Vec::new() };
        assert(r@ =~= Seq::<(Seq<char>, SoundView)>::empty());
        r
    }

    /// A library holding the given entries, in order
    pub fn from_static(sounds: Vec<(String, Sound)>) -> (r: Self)
        ensures
            r@ == entries_view(sounds@),
    {
        Self { sounds }
    }

    /// The library of the `sounds` config map: its entries in order, or
    /// the message telling about the first name that isn't valid
    pub fn from_entries(entries: Vec<(String, Sound)>) -> (r: Result<Self, String>)
        ensures
            r is Ok <==> forall|i: int| 0 <= i < entries@.len() ==> is_valid_sound_name(#[trigger] entries@[i].0@),
            r matches Ok(lib) ==> lib@ == entries_view(entries@),
            r matches Err(m) ==> exists|i: int| {
                &&& 0 <= i < entries@.len()
                &&& !is_valid_sound_name(entries@[i].0@)
                &&& forall|j: int| 0 <= j < i ==> is_valid_sound_name(#[trigger] entries@[j].0@)
                &&& m@ == invalid_sound_name_message(entries@[i].0@)
            },
    {
        let n = entries.len();
        for i in 0..n
            invariant
                n == entries@.len(),
                forall|j: int| 0 <= j < i ==> is_valid_sound_name(#[trigger] entries@[j].0@),
        {
            match check_sound_name(entries[i].0.as_str()) {
                Ok(()) => {},
                Err(m) => {
                    return Err(m);
                },
            }
        }
        Ok(Self { sounds: entries })
    }

    pub fn get(&self, name: &str) -> (r: Option<&Sound>)
        ensures
            match lookup(self@, name@) {
                Some(s) => r matches Some(x) && x@ == s,
                None => r is None,
            },
    {
        let key = name.to_owned();
        let n = self.sounds.len();
        for i in 0..n
            invariant
                n == self.sounds@.len(),
                key@ == name@,
                forall|j: int| 0 <= j < i ==> self@[j].0 != name@,
        {
            if self.sounds[i].0 == key {
                assert(is_first_named(self@, name@, i as int));
                proof {
                    lemma_first_named_unique(self@, name@, i as int);
                }
                return Some(&self.sounds[i].1);
            }
        }
        None
    }

    pub fn set(&mut self, name: String, sound: Sound)
        ensures
            final(self)@ == with_sound(old(self)@, name@, sound@),
    {
        let n = self.sounds.len();
        let mut i: usize = 0;
        while i < n
            invariant
                i <= n,
                n == self.sounds@.len(),
                self.sounds@ == old(self).sounds@,
                forall|j: int| 0 <= j < i ==> old(self)@[j].0 != name@,
            decreases n - i,
        {
            if self.sounds[i].0 == name {
                proof {
                    assert(self@ == old(self)@);
                    lemma_first_named_unique(old(self)@, name@, i as int);
                }
                let ghost before = self.sounds@;
                let ghost entry = (name@, sound@);
                assert(entries_view(before) == old(self)@);
                self.sounds.set(i, (name, sound));
                assert(self@ =~= entries_view(before).update(i as int, entry));
                assert(self@ == with_sound(old(self)@, entry.0, entry.1));
                return;
            }
            i = i + 1;
        }
        let ghost before = self.sounds@;
        let ghost entry = (name@, sound@);
        assert(entries_view(before) == old(self)@);
        assert(!exists|k: int| is_first_named(old(self)@, entry.0, k));
        self.sounds.push((name, sound));
        assert(self@ =~= entries_view(before).push(entry));
    }

    /// Expand the tildes and make the paths absolute, relative paths
    /// being taken from the given directory
    pub fn resolve_paths(&mut self, base_dir: &str, home_dir: Option<&str>)
        ensures
            final(self)@ == resolved_entries(old(self)@, base_dir@, opt_view(home_dir)),
    {
        let n = self.sounds.len();
        for i in 0..n
            invariant
                n == self.sounds@.len(),
                n == old(self).sounds@.len(),
                forall|j: int|
                    0 <= j < i ==> (#[trigger] self.sounds@[j]).0 == old(self).sounds@[j].0
                        && self.sounds@[j].1@ == resolved_sound(old(self).sounds@[j].1@, base_dir@, opt_view(home_dir)),
                forall|j: int| i <= j < n ==> #[trigger] self.sounds@[j] == old(self).sounds@[j],
        {
            let name = self.sounds[i].0.clone();
            let mut sound = self.sounds[i].1.clone();
            sound.resolve_path(base_dir, home_dir);
            self.sounds.set(i, (name, sound));
        }
        assert(self@ =~= resolved_entries(old(self)@, base_dir@, opt_view(home_dir)));
    }

    /// Add the sounds of the other library, replacing those of same name
    pub fn apply(&mut self, library: &SoundLibrary)
        ensures
            final(self)@ == applied(old(self)@, library@),
    {
        let n = library.sounds.len();
        for i in 0..n
            invariant
                n == library.sounds@.len(),
                self@ == applied(old(self)@, library@.take(i as int)),
        {
            let name = library.sounds[i].0.clone();
            let sound = library.sounds[i].1.clone();
            assert(library@.take(i + 1).drop_last() =~= library@.take(i as int));
            self.set(name, sound);
        }
        assert(library@.take(n as int) =~= library@);
    }
}

/// There is at most one first entry of a name.
pub proof fn lemma_first_named_unique(e: Entries, name: Seq<char>, i: int)
    requires
        is_first_named(e, name, i),
    ensures
        forall|k: int| is_first_named(e, name, k) ==> k == i,
        lookup(e, name) == Some(e[i].1),
{
    assert forall|k: int| is_first_named(e, name, k) implies k == i by {
        if k < i {
            assert(e[k].0 == name);
        } else if k > i {
            assert(e[i].0 == name);
        }
    }
}

/// An entry of `name` at `i` means that a first entry of `name` exists.
pub proof fn lemma_first_named_exists(e: Entries, name: Seq<char>, i: int)
    requires
        0 <= i < e.len(),
        e[i].0 == name,
    ensures
        exists|k: int| is_first_named(e, name, k),
    decreases i,
{
    if forall|j: int| 0 <= j < i ==> e[j].0 != name {
        assert(is_first_named(e, name, i));
    } else {
        let j = choose|j: int| 0 <= j < i && e[j].0 != name == false;
        lemma_first_named_exists(e, name, j);
    }
}

/// Looking up `name` in two entry lists that agree on every entry named
/// `name` and on where such entries stand gives the same sound.
pub proof fn lemma_lookup_same_named_entries(e: Entries, e2: Entries, name: Seq<char>)
    requires
        forall|j: int|
            #![trigger e[j]]
            #![trigger e2[j]]
            0 <= j < e.len() && 0 <= j < e2.len() ==> (e[j].0 == name) == (e2[j].0 == name),
        forall|j: int|
            #![trigger e[j]]
            #![trigger e2[j]]
            0 <= j < e.len() && 0 <= j < e2.len() && e[j].0 == name ==> e2[j] == e[j],
        forall|j: int| e.len() <= j < e2.len() ==> #[trigger] e2[j].0 != name,
        forall|j: int| e2.len() <= j < e.len() ==> #[trigger] e[j].0 != name,
    ensures
        lookup(e2, name) == lookup(e, name),
{
    if exists|k: int| is_first_named(e, name, k) {
        let k = choose|k: int| is_first_named(e, name, k);
        assert(k < e2.len());
        assert(e[k].0 == name);
        assert(is_first_named(e2, name, k));
        lemma_first_named_unique(e, name, k);
        lemma_first_named_unique(e2, name, k);
    } else if exists|k: int| is_first_named(e2, name, k) {
        let k = choose|k: int| is_first_named(e2, name, k);
        assert(k < e.len());
        assert(e2[k].0 == name);
        assert(is_first_named(e, name, k));
    }
}

/// After setting `name` to `s`, looking `name` up gives `s`, and looking up
/// any other name gives what it gave before.
pub proof fn lemma_lookup_after_set(e: Entries, name: Seq<char>, s: SoundView, other: Seq<char>)
    ensures
        lookup(with_sound(e, name, s), name) == Some(s),
        other != name ==> lookup(with_sound(e, name, s), other) == lookup(e, other),
{
    let e2 = with_sound(e, name, s);
    if exists|i: int| is_first_named(e, name, i) {
        let i = choose|i: int| is_first_named(e, name, i);
        assert(is_first_named(e2, name, i));
        lemma_first_named_unique(e2, name, i);
    } else {
        assert forall|j: int| 0 <= j < e.len() implies e[j].0 != name by {
            if e[j].0 == name {
                lemma_first_named_exists(e, name, j);
            }
        }
        assert(is_first_named(e2, name, e.len() as int));
        lemma_first_named_unique(e2, name, e.len() as int);
    }
    if other != name {
        lemma_lookup_same_named_entries(e, e2, other);
    }
}

/// After applying `other`, looking a name up gives the sound of the last
/// entry of `other` of that name, or, when `other` has none, what it gave
/// before.
pub proof fn lemma_lookup_after_apply(e: Entries, other: Entries, name: Seq<char>)
    ensures
        lookup(applied(e, other), name) == match last_named(other, name) {
            Some(s) => Some(s),
            None => lookup(e, name),
        },
    decreases other.len(),
{
    if other.len() > 0 {
        lemma_lookup_after_apply(e, other.drop_last(), name);
        lemma_lookup_after_set(applied(e, other.drop_last()), other.last().0, other.last().1, name);
    }
}

/// In entries of distinct names, the last entry of a name is the first one.
pub proof fn lemma_last_named_is_lookup(e: Entries, name: Seq<char>)
    requires
        distinct_names(e),
    ensures
        last_named(e, name) == lookup(e, name),
    decreases e.len(),
{
    if e.len() > 0 {
        let d = e.drop_last();
        let n = e.len() - 1;
        assert(distinct_names(d));
        lemma_last_named_is_lookup(d, name);
        if e.last().0 == name {
            assert(is_first_named(e, name, n));
            lemma_first_named_unique(e, name, n);
        } else {
            lemma_lookup_same_named_entries(d, e, name);
        }
    }
}

/// Setting a sound keeps the names distinct.
pub proof fn lemma_set_keeps_names_distinct(e: Entries, name: Seq<char>, s: SoundView)
    requires
        distinct_names(e),
    ensures
        distinct_names(with_sound(e, name, s)),
{
    if !exists|i: int| is_first_named(e, name, i) {
        assert forall|j: int| 0 <= j < e.len() implies e[j].0 != name by {
            if e[j].0 == name {
                lemma_first_named_exists(e, name, j);
            }
        }
    }
}

/// Applying a library keeps the names distinct.
pub proof fn lemma_apply_keeps_names_distinct(e: Entries, other: Entries)
    requires
        distinct_names(e),
    ensures
        distinct_names(applied(e, other)),
    decreases other.len(),
{
    if other.len() > 0 {
        lemma_apply_keeps_names_distinct(e, other.drop_last());
        lemma_set_keeps_names_distinct(applied(e, other.drop_last()), other.last().0, other.last().1);
    }
}

/// Resolving the paths of a library from an absolute base directory makes
/// every file path absolute, and resolving them again changes nothing.
pub proof fn lemma_resolve_paths_absolute_and_stable(e: Entries, base_dir: Seq<char>, home: Option<Seq<char>>)
    requires
        is_absolute(base_dir),
    ensures
        forall|i: int|
            0 <= i < e.len() ==> match (#[trigger] resolved_entries(e, base_dir, home)[i]).1.source {
                SourceView::File(p) => is_absolute(p),
                SourceView::Embedded(_) => true,
            },
        resolved_entries(resolved_entries(e, base_dir, home), base_dir, home) == resolved_entries(e, base_dir, home),
{
    let r = resolved_entries(e, base_dir, home);
    assert forall|i: int| 0 <= i < e.len() implies match (#[trigger] r[i]).1.source {
        SourceView::File(p) => is_absolute(p),
        SourceView::Embedded(_) => true,
    } && resolved_sound(r[i].1, base_dir, home) == r[i].1 by {
        match e[i].1.source {
            SourceView::File(p) => lemma_resolved_is_absolute_and_stable(p, base_dir, home),
            SourceView::Embedded(_) => {},
        }
    }
    assert(resolved_entries(r, base_dir, home) =~= r);
}

/// The entries `x` with the first entry of each name that `o` holds given
/// the sound of the last entry of `o` of that name.
pub open spec fn overwritten(x: Entries, o: Entries) -> Entries {
    Seq::new(
        x.len(),
        |i: int|
            if is_first_named(x, x[i].0, i) && last_named(o, x[i].0) is Some {
                (x[i].0, last_named(o, x[i].0)->0)
            } else {
                x[i]
            },
    )
}

/// Some entry of `x` is named `name`.
pub open spec fn has_first_named(x: Entries, name: Seq<char>) -> bool {
    exists|i: int| is_first_named(x, name, i)
}

/// A name that `o` holds has a last entry in `o`.
pub proof fn lemma_last_named_exists(o: Entries, j: int)
    requires
        0 <= j < o.len(),
    ensures
        last_named(o, o[j].0) is Some,
    decreases o.len(),
{
    if o.last().0 != o[j].0 {
        assert(j < o.len() - 1);
        assert(o.drop_last()[j] == o[j]);
        lemma_last_named_exists(o.drop_last(), j);
    }
}

/// Applying `o` to entries that already hold each of its names only
/// overwrites the first entry of each of those names.
pub proof fn lemma_apply_overwrites(x: Entries, o: Entries)
    requires
        forall|j: int| 0 <= j < o.len() ==> has_first_named(x, #[trigger] o[j].0),
    ensures
        applied(x, o) == overwritten(x, o),
    decreases o.len(),
{
    if o.len() == 0 {
        assert(overwritten(x, o) =~= x);
    } else {
        let d = o.drop_last();
        let l = o.last();
        assert forall|j: int| 0 <= j < d.len() implies has_first_named(x, #[trigger] d[j].0) by {
            assert(d[j] == o[j]);
        }
        lemma_apply_overwrites(x, d);
        let y = overwritten(x, d);
        assert(has_first_named(x, o[o.len() - 1].0));
        let i0 = choose|i: int| is_first_named(x, l.0, i);
        assert forall|k: int| #![trigger y[k]] 0 <= k < x.len() implies y[k].0 == x[k].0 by {}
        assert(is_first_named(y, l.0, i0));
        lemma_first_named_unique(y, l.0, i0);
        lemma_first_named_unique(x, l.0, i0);
        let z = with_sound(y, l.0, l.1);
        assert(z == y.update(i0, (l.0, l.1)));
        assert forall|k: int| 0 <= k < x.len() implies #[trigger] z[k] == overwritten(x, o)[k] by {
            if k != i0 {
                if x[k].0 == l.0 {
                    assert(!is_first_named(x, l.0, k));
                } else if is_first_named(x, x[k].0, k) {
                    assert(last_named(o, x[k].0) == last_named(d, x[k].0));
                }
            }
        }
        assert(z =~= overwritten(x, o));
    }
}

/// Applying a library a second time changes nothing more, and applying the
/// empty library changes nothing.
pub proof fn lemma_apply_twice(e: Entries, o: Entries)
    ensures
        applied(applied(e, o), o) == applied(e, o),
        applied(e, Seq::empty()) == e,
{
    let f = applied(e, o);
    assert forall|j: int| 0 <= j < o.len() implies has_first_named(f, #[trigger] o[j].0) by {
        lemma_last_named_exists(o, j);
        lemma_lookup_after_apply(e, o, o[j].0);
    }
    lemma_apply_overwrites(f, o);
    assert forall|i: int| 0 <= i < f.len() implies #[trigger] overwritten(f, o)[i] == f[i] by {
        if is_first_named(f, f[i].0, i) && last_named(o, f[i].0) is Some {
            lemma_lookup_after_apply(e, o, f[i].0);
            lemma_first_named_unique(f, f[i].0, i);
        }
    }
    assert(overwritten(f, o) =~= f);
}

/// A sound name is refused only for being empty, padded with whitespace, or
/// holding a ',' or a '='.
pub proof fn lemma_refused_sound_names(name: Seq<char>)
    ensures
        name.len() == 0 ==> !is_valid_sound_name(name),
        name.len() > 0 && is_white_space(name[0]) ==> !is_valid_sound_name(name),
        name.len() > 0 && is_white_space(name.last()) ==> !is_valid_sound_name(name),
        name.contains(',') ==> !is_valid_sound_name(name),
        name.contains('=') ==> !is_valid_sound_name(name),
{
}

/// Any non-empty name made of characters that are neither whitespace, ','
/// nor '=' is a valid sound name, whatever those characters are ('_', '-',
/// letters, digits...).
pub proof fn lemma_plain_names_are_valid(name: Seq<char>)
    requires
        name.len() > 0,
        forall|j: int|
            0 <= j < name.len() ==> !is_white_space(#[trigger] name[j]) && name[j] != ','
                && name[j] != '=',
    ensures
        is_valid_sound_name(name),
{
    assert(!is_white_space(name[name.len() - 1]));
}

/// Inside a valid sound name, any character but ',' and '=' can stand,
/// whitespace included.
pub proof fn lemma_inner_characters_are_free(name: Seq<char>, i: int, c: char)
    requires
        is_valid_sound_name(name),
        0 < i < name.len() - 1,
        c != ',',
        c != '=',
    ensures
        is_valid_sound_name(name.update(i, c)),
{
    let n = name.update(i, c);
    assert(n[0] == name[0]);
    assert(n.last() == name.last());
    assert forall|j: int| 0 <= j < n.len() implies n[j] != ',' && n[j] != '=' by {
        if j != i {
            assert(n[j] == name[j]);
            assert(name.contains(name[j]));
        }
    }
}

} // verus!
