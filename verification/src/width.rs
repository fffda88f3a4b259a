//! Which texts can be put into a cell of a table.
//!
//! `prettytable` measures every line of a cell's text as a terminal shows it: it
//! takes the columns of the line from the `unicode-width` crate and subtracts the
//! characters that stand inside escape sequences, which a terminal does not show.
//! Where a line has fewer columns than such characters, it stops with a panic.
//! This module finds those lines beforehand.
use vstd::prelude::*;
use vstd::string::StrSliceExecFns;
use unicode_width::{UnicodeWidthChar, UnicodeWidthStr};
use crate::table::text_lines;

verus! {

/// Where a scan of a line stands with respect to escape sequences.
#[derive(Clone, Copy, Debug)]
pub enum Escape {
    /// Not in an escape sequence.
    Outside,
    /// Just behind an escape character.
    Begun,
    /// Behind an escape character and `[`, before the closing `m`.
    Inside,
}

/// The columns that `text` takes, as `UnicodeWidthStr::width` counts them.
pub uninterp spec fn columns(text: Seq<char>) -> usize;

/// The columns that `c` takes by itself, as `UnicodeWidthChar::width` counts
/// them; a control character has none to give.
pub uninterp spec fn char_columns(c: char) -> Option<usize>;

/// 1 where `c` by itself takes a column, else 0.
pub open spec fn counted(c: char) -> nat {
    match char_columns(c) {
        Some(width) => if width > 0 {
            1
        } else {
            0
        },
        None => 0,
    }
}

/// One step of the scan: where it stands behind `c`, and how many characters
/// inside escape sequences it has counted by then. The opening `[`, the closing
/// `m` and all between them are inside; the escape character itself is not.
pub open spec fn step(state: Escape, hidden: nat, c: char) -> (Escape, nat) {
    match state {
        Escape::Outside => (
            if c == '\u{1b}' {
                Escape::Begun
            } else {
                Escape::Outside
            },
            hidden,
        ),
        Escape::Begun => if c == '[' {
            (Escape::Inside, hidden + counted(c))
        } else {
            (Escape::Outside, hidden)
        },
        Escape::Inside => (
            if c == 'm' {
                Escape::Outside
            } else {
                Escape::Inside
            },
            hidden + counted(c),
        ),
    }
}

/// The scan of a whole line, from its first character on.
pub open spec fn scan(line: Seq<char>) -> (Escape, nat)
    decreases line.len(),
{
    if line.len() == 0 {
        (Escape::Outside, 0)
    } else {
        let (state, hidden) = scan(line.drop_last());
        step(state, hidden, line.last())
    }
}

/// `line` can be measured: it has at least as many columns as characters inside
/// escape sequences.
pub open spec fn line_fits(line: Seq<char>) -> bool {
    scan(line).1 <= columns(line)
}

/// `text` can be put into a cell: it holds no escape character, or each of its
/// lines can be measured.
pub open spec fn printable(text: Seq<char>) -> bool {
    ||| !text.contains('\u{1b}')
    ||| forall|i: int|
        0 <= i < text_lines(text).len() ==> line_fits(#[trigger] text_lines(text)[i])
}

/// `UnicodeWidthStr::width`: the columns of `text`, a function of the text alone.
#[verifier::external_body]
pub(crate) fn text_width(text: &str) -> (width: usize)
    ensures
        width == columns(text@),
{
    UnicodeWidthStr::width(text)
}

/// `UnicodeWidthChar::width`: the columns of `c` by itself, a function of the
/// character alone.
#[verifier::external_body]
pub(crate) fn char_width(c: char) -> (width: Option<usize>)
    ensures
        width == char_columns(c),
{
    UnicodeWidthChar::width(c)
}

/// `str::lines`: the lines of `text`, in their order.
#[verifier::external_body]
pub(crate) fn lines_of<'a>(text: &'a str) -> (lines: Vec<&'a str>)
    ensures
        lines@.map_values(|line: &str| line@) == text_lines(text@),
{
    text.lines().collect()
}

/// Whether `text` holds an escape character.
pub fn has_escape(text: &str) -> (found: bool)
    ensures
        found == text@.contains('\u{1b}'),
{
    broadcast use vstd::string::group_string_axioms;

    for c in chars: text.chars()
        invariant
            chars.seq() == text@,
            forall|j: int| 0 <= j < chars.index() ==> text@[j] != '\u{1b}',
    {
        if c == '\u{1b}' {
            assert(text@[chars.index() as int] == '\u{1b}');
            return true;
        }
    }
    false
}

/// The number of characters of `line` that stand inside escape sequences and
/// take a column by themselves.
pub fn hidden_columns(line: &str) -> (hidden: usize)
    ensures
        hidden == scan(line@).1,
{
    broadcast use vstd::string::group_string_axioms;

    let length = line.unicode_len();
    let mut state = Escape::Outside;
    let mut hidden: usize = 0;
    for c in chars: line.chars()
        invariant
            chars.seq() == line@,
            length == line@.len(),
            hidden <= chars.index(),
            (state, hidden as nat) == scan(line@.take(chars.index())),
    {
        let ghost seen = line@.take(chars.index() + 1);
        assert(seen.drop_last() =~= line@.take(chars.index()));
        assert(seen.last() == c);
        let inside = match state {
            Escape::Outside => {
                state = if c == '\u{1b}' {
                    Escape::Begun
                } else {
                    Escape::Outside
                };
                false
            },
            Escape::Begun => {
                state = if c == '[' {
                    Escape::Inside
                } else {
                    Escape::Outside
                };
                c == '['
            },
            Escape::Inside => {
                state = if c == 'm' {
                    Escape::Outside
                } else {
                    Escape::Inside
                };
                true
            },
        };
        if inside {
            match char_width(c) {
                Some(width) => if width > 0 {
                    hidden += 1;
                },
                None => {},
            }
        }
    }
    assert(line@.take(line@.len() as int) =~= line@);
    hidden
}

/// Whether `text` can be put into a cell.
pub fn is_printable(text: &str) -> (fits: bool)
    ensures
        fits == printable(text@),
{
    if !has_escape(text) {
        return true;
    }
    let lines = lines_of(text);
    let ghost views = lines@.map_values(|line: &str| line@);
    let mut i: usize = 0;
    while i < lines.len()
        invariant
            i <= lines.len(),
            text@.contains('\u{1b}'),
            views == lines@.map_values(|line: &str| line@),
            views == text_lines(text@),
            forall|j: int| 0 <= j < i ==> line_fits(#[trigger] text_lines(text@)[j]),
        decreases lines.len() - i,
    {
        let line = lines[i];
        assert(views[i as int] == line@);
        if text_width(line) < hidden_columns(line) {
            assert(!line_fits(text_lines(text@)[i as int]));
            return false;
        }
        i += 1;
    }
    true
}

} // verus!
