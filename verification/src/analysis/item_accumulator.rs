//! Receives lines and accumulates them into items, used at end to build a
//! sorted list of lines.

use crate::result::line::Line;
use crate::result::line_type::{Kind, LineType};
use crate::result::tline::TLine;
use vstd::prelude::*;

verus! {

/// The state of an accumulator, as plain values: the kind of the current
/// item, if any, and the lines received for each kind of item.
pub struct AccumulatorView {
    pub curr_kind: Option<Kind>,
    pub errors: Seq<Line>,
    pub test_fails: Seq<Line>,
    pub warnings: Seq<Line>,
}

/// Receives lines and accumulates them into items, used
/// at end to build a sorted list of lines.
///
/// This is a small optional utility for report makers
pub struct ItemAccumulator {
    curr_kind: Option<Kind>,
    errors: Vec<Line>,
    test_fails: Vec<Line>,
    warnings: Vec<Line>,
}

impl View for ItemAccumulator {
    type V = AccumulatorView;

    closed spec fn view(&self) -> AccumulatorView {
        AccumulatorView {
            curr_kind: self.curr_kind,
            errors: self.errors@,
            test_fails: self.test_fails@,
            warnings: self.warnings@,
        }
    }
}

/// The state after receiving `line`: it goes to the lines of the current
/// item's kind, and is dropped when there is no current item or it is
/// neither a warning, an error, nor a failing test.
pub open spec fn with_line(a: AccumulatorView, line: Line) -> AccumulatorView {
    match a.curr_kind {
        Some(Kind::Warning) => AccumulatorView { warnings: a.warnings.push(line), ..a },
        Some(Kind::Error) => AccumulatorView { errors: a.errors.push(line), ..a },
        Some(Kind::TestFail) => AccumulatorView { test_fails: a.test_fails.push(line), ..a },
        _ => a,
    }
}

/// How many title lines `s` holds.
pub open spec fn titles_in(s: Seq<Line>) -> nat
    decreases s.len(),
{
    if s.len() == 0 {
        0
    } else {
        titles_in(s.drop_last()) + if s.last().line_type is Title {
            1nat
        } else {
            0nat
        }
    }
}

/// `s` with each line given, as item index, the number of titles up to it,
/// itself included.
pub open spec fn numbered(s: Seq<Line>) -> Seq<Line> {
    Seq::new(
        s.len(),
        |i: int|
            Line {
                item_idx: titles_in(s.take(i + 1)) as usize,
                line_type: s[i].line_type,
                content: s[i].content,
            },
    )
}

/// A sequence holds no more titles than lines.
pub proof fn lemma_titles_in_bound(s: Seq<Line>)
    ensures
        titles_in(s) <= s.len(),
    decreases s.len(),
{
    if s.len() > 0 {
        lemma_titles_in_bound(s.drop_last());
    }
}

/// In numbered lines, the item index starts at 0 before any title, grows by
/// one at each title, and stays the same on the other lines.
pub proof fn lemma_numbered_item_steps(s: Seq<Line>, i: int)
    requires
        0 <= i < s.len(),
        s.len() <= usize::MAX,
    ensures
        numbered(s)[i].item_idx == (if i == 0 {
            0
        } else {
            numbered(s)[i - 1].item_idx as int
        }) + (if s[i].line_type is Title {
            1int
        } else {
            0int
        }),
{
    assert(s.take(i + 1).drop_last() =~= s.take(i));
    assert(s.take(i + 1).last() == s[i]);
    lemma_titles_in_bound(s.take(i + 1));
    lemma_titles_in_bound(s.take(i));
    if i > 0 {
        assert(s.take(i - 1 + 1) =~= s.take(i));
    }
    if i == 0 {
        assert(s.take(0) =~= Seq::<Line>::empty());
    }
}

/// Numbering lines keeps them all, in order, each with the type and the
/// content it was received with: only the item index is set.
pub proof fn lemma_numbered_keeps_lines(s: Seq<Line>)
    ensures
        numbered(s).len() == s.len(),
        forall|i: int|
            0 <= i < s.len() ==> #[trigger] numbered(s)[i].line_type == s[i].line_type
                && numbered(s)[i].content == s[i].content,
{
}

/// The lines given back are those of the errors, then those of the failing
/// tests, then those of the warnings, each keeping its type and content.
pub proof fn lemma_lines_keep_their_kind_order(a: AccumulatorView)
    ensures
        forall|i: int|
            0 <= i < a.errors.len() ==> #[trigger] numbered(a.errors + a.test_fails + a.warnings)[i].line_type
                == a.errors[i].line_type && numbered(a.errors + a.test_fails + a.warnings)[i].content
                == a.errors[i].content,
        forall|i: int|
            0 <= i < a.test_fails.len() ==> #[trigger] numbered(
                a.errors + a.test_fails + a.warnings,
            )[a.errors.len() + i].line_type == a.test_fails[i].line_type && numbered(
                a.errors + a.test_fails + a.warnings,
            )[a.errors.len() + i].content == a.test_fails[i].content,
        forall|i: int|
            0 <= i < a.warnings.len() ==> #[trigger] numbered(
                a.errors + a.test_fails + a.warnings,
            )[a.errors.len() + a.test_fails.len() + i].line_type == a.warnings[i].line_type
                && numbered(a.errors + a.test_fails + a.warnings)[a.errors.len()
                + a.test_fails.len() + i].content == a.warnings[i].content,
{
    let all = a.errors + a.test_fails + a.warnings;
    lemma_numbered_keeps_lines(all);
    assert forall|i: int| 0 <= i < a.test_fails.len() implies all[a.errors.len() + i] == a.test_fails[i] by {}
    assert forall|i: int| 0 <= i < a.warnings.len() implies all[a.errors.len() + a.test_fails.len() + i] == a.warnings[i] by {}
}

impl Default for ItemAccumulator {
    fn default() -> (r: Self)
        ensures
            r@ == (AccumulatorView {
                curr_kind: None,
                errors: Seq::empty(),
                test_fails: Seq::empty(),
                warnings: Seq::empty(),
            }),
    {
        ItemAccumulator {
            curr_kind: None,
            errors: Vec::new(),
            test_fails: Vec::new(),
            warnings: Vec::new(),
        }
    }
}

impl ItemAccumulator {
    pub fn start_item(&mut self, kind: Kind)
        ensures
            final(self)@ == (AccumulatorView { curr_kind: Some(kind), ..old(self)@ }),
    {
        self.curr_kind = Some(kind);
    }

    pub fn push_line(&mut self, line_type: LineType, content: TLine)
        ensures
            final(self)@ == with_line(
                old(self)@,
                Line { item_idx: 0, line_type, content },
            ),
    {
        let line = Line {
            item_idx: 0,  // will be filled later
            line_type,
            content,
        };
        match self.curr_kind {
            Some(Kind::Warning) => self.warnings.push(line),
            Some(Kind::Error) => self.errors.push(line),
            Some(Kind::TestFail) => self.test_fails.push(line),
            _ => {},  // before warnings and errors, or in a sum
        }
    }

    /// The lines received: errors first, then failing tests, then warnings,
    /// each with the index of its item
    pub fn lines(self) -> (r: Vec<Line>)
        ensures
            r@ == numbered(self@.errors + self@.test_fails + self@.warnings),
            r@.len() == self@.errors.len() + self@.test_fails.len() + self@.warnings.len(),
            forall|i: int|
                0 <= i < r@.len() ==> #[trigger] r@[i].line_type == (self@.errors + self@.test_fails
                    + self@.warnings)[i].line_type && r@[i].content == (self@.errors
                    + self@.test_fails + self@.warnings)[i].content,
    {
        let ghost all = self@.errors + self@.test_fails + self@.warnings;
        let ItemAccumulator { curr_kind: _, errors, mut test_fails, mut warnings } = self;
        let mut lines = errors;
        lines.append(&mut test_fails);
        lines.append(&mut warnings);
        assert(lines@ =~= all);
        let n = lines.len();
        let mut item_idx: usize = 0;
        for i in 0..n
            invariant
                n == lines@.len(),
                n == all.len(),
                item_idx == titles_in(all.take(i as int)),
                forall|j: int| 0 <= j < i ==> #[trigger] lines@[j] == numbered(all)[j],
                forall|j: int| i <= j < n ==> #[trigger] lines@[j] == all[j],
        {
            proof {
                assert(all.take(i + 1).drop_last() =~= all.take(i as int));
                lemma_titles_in_bound(all.take(i + 1));
            }
            if matches!(lines[i].line_type, LineType::Title(_)) {
                item_idx += 1;
            }
            lines[i].item_idx = item_idx;
        }
        assert(lines@ =~= numbered(all));
        proof {
            lemma_numbered_keeps_lines(all);
        }
        lines
    }
}

} // verus!
