//! A report line.

use super::line_type::LineType;
use super::tline::{spec_if_unstyled, CommandOutputLine, TLine};
use crate::path::{join, path_join};
use crate::text::{char_is_whitespace, chars_of, is_white_space, opt_view};
use vstd::prelude::*;
use vstd::std_specs::convert::FromSpecImpl;

verus! {

/// What a report is about
#[derive(Debug, Clone, PartialEq, Eq, Default)]
pub struct Mission {
    /// the directory of the package, from which relative locations are taken
    pub package_directory: String,
}

/// A report line
#[derive(Debug, Clone, PartialEq, Eq)]
pub struct Line {
    /// the index among items
    /// (all lines having the same index belong to the same error, warning, or test item,
    /// or just the same unclassified soup)
    pub item_idx: usize,
    pub line_type: LineType,
    pub content: TLine,
}

/// Whether `c` starts a title's message: neither whitespace nor ':'.
pub open spec fn is_title_padding(c: char) -> bool {
    is_white_space(c) || c == ':'
}

/// `s` without its leading whitespace and ':' characters.
pub open spec fn trim_title_padding(s: Seq<char>) -> Seq<char>
    decreases s.len(),
{
    if s.len() > 0 && is_title_padding(s[0]) {
        trim_title_padding(s.drop_first())
    } else {
        s
    }
}

/// The message of a title line, if the line is a title: its text when it
/// is made of one unstyled string, else its second string without its
/// leading whitespace and ':' characters.
pub open spec fn spec_title_message(l: Line) -> Option<Seq<char>> {
    match l.line_type {
        LineType::Title(_) => match spec_if_unstyled(l.content) {
            Some(c) => Some(c),
            None => if l.content.strings@.len() > 1 {
                Some(trim_title_padding(l.content.strings@[1].raw@))
            } else {
                None
            },
        },
        _ => None,
    }
}

/// How many characters end `s` before a whitespace or its start.
pub open spec fn trailing_token_len(s: Seq<char>) -> nat
    decreases s.len(),
{
    if s.len() > 0 && !is_white_space(s.last()) {
        1 + trailing_token_len(s.drop_last())
    } else {
        0
    }
}

/// What the regular expression `(\S+)$` captures in `s`: the characters
/// ending `s` after its last whitespace, when there are some.
pub open spec fn trailing_token(s: Seq<char>) -> Option<Seq<char>> {
    let k = trailing_token_len(s);
    if k == 0 {
        None
    } else {
        Some(s.skip(s.len() - k))
    }
}

/// The location of a location line: the last token of its last string.
pub open spec fn spec_location(l: Line) -> Option<Seq<char>> {
    match l.line_type {
        LineType::Location => if l.content.strings@.len() > 0 {
            trailing_token(l.content.strings@.last().raw@)
        } else {
            None
        },
        _ => None,
    }
}

/// `s` without its leading whitespace and ':' characters.
fn trim_title_start(s: &str) -> (r: &str)
    ensures
        r@ == trim_title_padding(s@),
{
    let chars = chars_of(s);
    let n = chars.len();
    let mut k: usize = 0;
    assert(s@.skip(0) =~= s@);
    while k < n && (chars[k] == ':' || char_is_whitespace(chars[k]))
        invariant
            k <= n,
            n == chars@.len(),
            chars@ == s@,
            trim_title_padding(s@) == trim_title_padding(s@.skip(k as int)),
        decreases n - k,
    {
        assert(s@.skip(k as int).drop_first() =~= s@.skip(k + 1));
        k = k + 1;
    }
    let r = s.substring_char(k, n);
    assert(r@ =~= s@.skip(k as int));
    r
}

/// The characters ending `s` after its last whitespace, when there are some.
fn last_token(s: &str) -> (r: Option<&str>)
    ensures
        opt_view(r) == trailing_token(s@),
{
    let chars = chars_of(s);
    let n = chars.len();
    let mut k: usize = 0;
    assert(s@.take(n as int) =~= s@);
    while k < n && !char_is_whitespace(chars[n - 1 - k])
        invariant
            k <= n,
            n == chars@.len(),
            chars@ == s@,
            trailing_token_len(s@) == k + trailing_token_len(s@.take(n - k)),
        decreases n - k,
    {
        assert(s@.take(n - k).drop_last() =~= s@.take(n - k - 1));
        k = k + 1;
    }
    assert(s@.take(n as int) =~= s@);
    if k == 0 {
        None
    } else {
        let r = s.substring_char(n - k, n);
        assert(r@ =~= s@.skip(n - k));
        Some(r)
    }
}

impl Line {
    /// If the line is a title, get its message
    pub fn title_message(&self) -> (r: Option<&str>)
        ensures
            opt_view(r) == spec_title_message(*self),
    {
        match self.line_type {
            LineType::Title(_) => {
                if let Some(content) = self.content.if_unstyled() {
                    Some(content)
                } else if self.content.strings.len() > 1 {
                    Some(trim_title_start(self.content.strings[1].raw.as_str()))
                } else {
                    None
                }
            },
            _ => None,
        }
    }

    /// Whether the line is shown: in a summary, only the lines of a summary are
    pub fn matches(&self, summary: bool) -> (r: bool)
        ensures
            r == (!summary || self.line_type is Title || self.line_type is Location),
    {
        !summary || self.line_type.is_summary()
    }

    /// Return the location as given by cargo
    /// It's usually relative and may contain the line and column
    pub fn location(&self) -> (r: Option<&str>)
        ensures
            opt_view(r) == spec_location(*self),
    {
        match self.line_type {
            LineType::Location => {
                // the location part is a string at end like src/truc:15:3
                // or src/truc
                let n = self.content.strings.len();
                if n > 0 {
                    last_token(self.content.strings[n - 1].raw.as_str())
                } else {
                    None
                }
            },
            _ => None,
        }
    }

    /// Return the absolute path to the error/warning/test location
    pub fn location_path(&self, mission: &Mission) -> (r: Option<String>)
        ensures
            match spec_location(*self) {
                Some(l) => r matches Some(p) && p@ == join(mission.package_directory@, l),
                None => r is None,
            },
    {
        let location_path = self.location()?;
        Some(path_join(mission.package_directory.as_str(), location_path))
    }

    pub fn is_continuation(&self) -> (r: bool)
        ensures
            r == self.line_type is Continuation,
    {
        matches!(self.line_type, LineType::Continuation { .. })
    }
}

impl From<CommandOutputLine> for Line {
    fn from(col: CommandOutputLine) -> (r: Self) {
        Line { item_idx: 0, content: col.content, line_type: LineType::Raw(col.origin) }
    }
}

impl FromSpecImpl<CommandOutputLine> for Line {
    open spec fn obeys_from_spec() -> bool {
        true
    }

    open spec fn from_spec(col: CommandOutputLine) -> Line {
        Line { item_idx: 0, content: col.content, line_type: LineType::Raw(col.origin) }
    }
}

/// Trimming the padding of a title removes its leading whitespace and ':'
/// characters and nothing else.
pub proof fn lemma_trim_title_padding(s: Seq<char>)
    ensures
        exists|k: int|
            0 <= k <= s.len() && trim_title_padding(s) == s.skip(k) && (forall|j: int|
                0 <= j < k ==> is_title_padding(#[trigger] s[j])) && (k < s.len()
                ==> !is_title_padding(s[k])),
    decreases s.len(),
{
    if s.len() > 0 && is_title_padding(s[0]) {
        let d = s.drop_first();
        lemma_trim_title_padding(d);
        let k = choose|k: int|
            0 <= k <= d.len() && trim_title_padding(d) == d.skip(k) && (forall|j: int|
                0 <= j < k ==> is_title_padding(#[trigger] d[j])) && (k < d.len()
                ==> !is_title_padding(d[k]));
        assert(d.skip(k) =~= s.skip(k + 1));
        assert forall|j: int| 0 <= j < k + 1 implies is_title_padding(#[trigger] s[j]) by {
            if j > 0 {
                assert(s[j] == d[j - 1]);
            }
        }
    } else {
        assert(s.skip(0) =~= s);
    }
}

/// The message of a title of two strings or more is its second string, from
/// its first character that is neither whitespace nor ':'; the strings that
/// follow the second one don't count.
pub proof fn lemma_title_message_is_second_string(l: Line, other: Line)
    requires
        l.line_type is Title,
        l.content.strings@.len() >= 2,
        other.line_type is Title,
        other.content.strings@.len() >= 2,
        other.content.strings@[1].raw@ == l.content.strings@[1].raw@,
    ensures
        spec_title_message(l) == spec_title_message(other),
        ({
            let second = l.content.strings@[1].raw@;
            exists|k: int|
                #![trigger second.skip(k)]
                0 <= k <= second.len() && spec_title_message(l) == Some(second.skip(k)) && (forall|
                    j: int,
                | 0 <= j < k ==> is_title_padding(#[trigger] second[j])) && (k < second.len()
                    ==> !is_title_padding(second[k]))
        }),
{
    let second = l.content.strings@[1].raw@;
    lemma_trim_title_padding(second);
    let k = choose|k: int|
        0 <= k <= second.len() && trim_title_padding(second) == second.skip(k) && (forall|j: int|
            0 <= j < k ==> is_title_padding(#[trigger] second[j])) && (k < second.len()
            ==> !is_title_padding(second[k]));
    assert(spec_if_unstyled(l.content) is None);
    assert(spec_title_message(l) == Some(second.skip(k)));
}

/// How many non-whitespace characters end `s`: all of them are
/// non-whitespace, and the one before them, if any, is whitespace.
pub proof fn lemma_trailing_token_len(s: Seq<char>)
    ensures
        trailing_token_len(s) <= s.len(),
        forall|j: int|
            s.len() - trailing_token_len(s) <= j < s.len() ==> !is_white_space(#[trigger] s[j]),
        trailing_token_len(s) < s.len() ==> is_white_space(s[s.len() - trailing_token_len(s) - 1]),
    decreases s.len(),
{
    if s.len() > 0 && !is_white_space(s.last()) {
        let d = s.drop_last();
        lemma_trailing_token_len(d);
        assert forall|j: int| s.len() - trailing_token_len(s) <= j < s.len() implies !is_white_space(
            #[trigger] s[j],
        ) by {
            if j < s.len() - 1 {
                assert(s[j] == d[j]);
            }
        }
        if trailing_token_len(s) < s.len() {
            assert(s[s.len() - trailing_token_len(s) - 1] == d[d.len() - trailing_token_len(d) - 1]);
        }
    }
}

/// The location of a location line is found in its last string alone: the
/// non-whitespace characters that end it, when it doesn't end with whitespace.
pub proof fn lemma_location_is_in_last_string(l: Line, other: Line)
    requires
        l.line_type is Location,
        l.content.strings@.len() >= 1,
        other.line_type is Location,
        other.content.strings@.len() >= 1,
        other.content.strings@.last().raw@ == l.content.strings@.last().raw@,
    ensures
        spec_location(l) == spec_location(other),
        ({
            let last = l.content.strings@.last().raw@;
            match spec_location(l) {
                Some(t) => {
                    &&& t.len() > 0
                    &&& t == last.skip(last.len() - t.len())
                    &&& forall|j: int| 0 <= j < t.len() ==> !is_white_space(#[trigger] t[j])
                    &&& t.len() < last.len() ==> is_white_space(last[last.len() - t.len() - 1])
                },
                None => last.len() == 0 || is_white_space(last.last()),
            }
        }),
{
    let last = l.content.strings@.last().raw@;
    lemma_trailing_token_len(last);
    let k = trailing_token_len(last);
    if k > 0 {
        let t = last.skip(last.len() - k);
        assert forall|j: int| 0 <= j < t.len() implies !is_white_space(#[trigger] t[j]) by {
            assert(t[j] == last[last.len() - k + j]);
        }
    } else if last.len() > 0 {
        assert(is_white_space(last[last.len() - 1]));
    }
}

} // verus!
