//! Lines of text in columns: rules, text at the right edge, text behind a glyph.

use crate::columns::{
    columns, is_plain, is_plain_text, lemma_columns_append, lemma_columns_plain, measure,
};
use vstd::prelude::*;
use vstd::string::{StrSliceExecFns, StringExecFns};

verus! {

/// The larger of two numbers.
pub open spec fn larger(a: nat, b: nat) -> nat {
    if a >= b {
        a
    } else {
        b
    }
}

/// The widest of what the lines of a report can need, from the columns of their parts: the
/// dice glyph, a space and the expression; the sides, a space and the glyph of a critical
/// minimum; the sides, a space and the glyph of a critical maximum; the highest sum.
pub open spec fn widest(dice: nat, text: nat, sides: nat, low: nat, high: nat, most: nat) -> nat {
    larger(larger(dice + 1 + text, sides + 1 + low), larger(sides + 1 + high, most))
}

/// A line of `n` times the character `c`.
pub open spec fn line_of(c: char, n: nat) -> Seq<char> {
    Seq::new(n, |i: int| c)
}

/// `text` moved to the right edge of a field of `width` characters: spaces come before it
/// until the field is full. A text that is longer than the field stays as it is.
pub open spec fn aligned(text: Seq<char>, width: nat) -> Seq<char> {
    if text.len() >= width {
        text
    } else {
        line_of(' ', (width - text.len()) as nat) + text
    }
}

/// The columns that a line of `width` columns has left behind `glyph`.
pub open spec fn room_behind(glyph: Seq<char>, width: nat) -> nat {
    if width >= columns(glyph) {
        (width - columns(glyph)) as nat
    } else {
        0
    }
}

/// A line that begins with `glyph` and ends with `text`, at the right edge of the columns
/// that the glyph leaves of `width`.
pub open spec fn tagged(glyph: Seq<char>, text: Seq<char>, width: nat) -> Seq<char> {
    glyph + aligned(text, room_behind(glyph, width))
}

/// A text of printable ASCII characters, moved to the right edge of a field, takes the
/// columns of the field, or its own where it is longer.
pub proof fn lemma_columns_aligned(text: Seq<char>, width: nat)
    requires
        is_plain_text(text),
    ensures
        is_plain_text(aligned(text, width)),
        aligned(text, width).len() == larger(text.len(), width),
        columns(aligned(text, width)) == larger(text.len(), width),
{
    let line = aligned(text, width);
    if text.len() < width {
        let pad = line_of(' ', (width - text.len()) as nat);
        assert forall|i: int| 0 <= i < line.len() implies is_plain(#[trigger] line[i]) by {
            if i < pad.len() {
                assert(line[i] == pad[i]);
            } else {
                assert(line[i] == text[i - pad.len()]);
            }
        }
    }
    lemma_columns_plain(line);
}

/// A line with a glyph takes the columns of the glyph and those of the text behind it.
pub proof fn lemma_columns_tagged(glyph: Seq<char>, text: Seq<char>, width: nat)
    requires
        is_plain_text(text),
    ensures
        columns(tagged(glyph, text, width)) == columns(glyph) + larger(
            text.len(),
            room_behind(glyph, width),
        ),
{
    lemma_columns_aligned(text, room_behind(glyph, width));
    lemma_columns_append(glyph, aligned(text, room_behind(glyph, width)));
}

/// Computes the widest of what the lines of a report can need, from the columns of their
/// parts. The result is a `u128`, which holds any such sum of columns.
pub fn widest_of(
    dice: usize,
    text: usize,
    sides: usize,
    low: usize,
    high: usize,
    most: usize,
) -> (width: u128)
    ensures
        width == widest(
            dice as nat,
            text as nat,
            sides as nat,
            low as nat,
            high as nat,
            most as nat,
        ),
{
    let header = dice as u128 + 1 + text as u128;
    let low = sides as u128 + 1 + low as u128;
    let high = sides as u128 + 1 + high as u128;
    let most = most as u128;
    let first = if header >= low {
        header
    } else {
        low
    };
    let second = if high >= most {
        high
    } else {
        most
    };
    if first >= second {
        first
    } else {
        second
    }
}

/// A line of `n` times the one character of `unit`.
pub(crate) fn rule(unit: &str, n: u128) -> (line: String)
    requires
        unit@.len() == 1,
    ensures
        line@ == line_of(unit@[0], n as nat),
{
    let mut line = String::new();
    let mut i: u128 = 0;
    assert(line@ =~= line_of(unit@[0], 0));
    while i < n
        invariant
            i <= n,
            unit@.len() == 1,
            line@ == line_of(unit@[0], i as nat),
        decreases n - i,
    {
        line.append(unit);
        i = i + 1;
        assert(line@ =~= line_of(unit@[0], i as nat));
    }
    line
}

/// Moves `text` to the right edge of a field of `width` characters.
pub fn right_align(text: &str, width: u128) -> (line: String)
    ensures
        line@ == aligned(text@, width as nat),
{
    let len = text.unicode_len() as u128;
    let mut line = if len >= width {
        String::new()
    } else {
        proof {
            reveal_strlit(" ");
        }
        rule(" ", width - len)
    };
    line.append(text);
    assert(line@ =~= aligned(text@, width as nat));
    line
}

/// A line of display width `width` that begins with `glyph` and ends with `text`.
pub fn tag(glyph: &str, text: &str, width: u128) -> (line: String)
    ensures
        line@ == tagged(glyph@, text@, width as nat),
{
    let taken = measure(glyph) as u128;
    let room = if width >= taken {
        width - taken
    } else {
        0
    };
    let body = right_align(text, room);
    let mut line = String::from_str(glyph);
    line.append(body.as_str());
    line
}

} // verus!
