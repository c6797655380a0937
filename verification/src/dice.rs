//! A dice expression: how many dice, and how many sides each has.

use crate::decimal::{
    is_ascii_digit, lemma_numeral_roundtrip, numeral, parse_numeral, parsed, push_numeral,
};
use crate::pattern::{
    begins_at, captured, captures, first_from, groups_view, is_digit, lemma_first_from,
    lemma_run_end, lemma_run_end_is, run_end,
};
use vstd::prelude::*;
use vstd::string::StringExecFns;

verus! {

/// A request to roll `count` dice of `sides` sides each.
#[derive(Debug, Clone, Copy, PartialEq, Eq, Structural)]
pub struct Dice {
    pub count: usize,
    pub sides: usize,
}

/// The one failure of this library: a token that holds no dice expression, or one whose
/// numbers are not ASCII decimal numbers that `usize` can hold.
#[derive(Debug, Clone, Copy, PartialEq, Eq, Structural)]
pub struct Error;

/// The canonical text of an expression: the count, the letter `d`, the sides.
pub open spec fn expression_text(count: nat, sides: nat) -> Seq<char> {
    numeral(count) + seq!['d'] + numeral(sides)
}

/// What the two captured runs of digits make: a `Dice` where both are numbers that `usize`
/// holds, an error otherwise, and an error where nothing was captured.
pub open spec fn dice_of(groups: Option<(Seq<char>, Seq<char>)>) -> Result<Dice, Error> {
    match groups {
        None => Err(Error),
        Some((count, sides)) => match (parsed(count), parsed(sides)) {
            (Some(count), Some(sides)) => Ok(Dice { count, sides }),
            _ => Err(Error),
        },
    }
}

/// What a token parses to: the first dice expression in it, read as two decimal numbers.
pub open spec fn parse(token: Seq<char>) -> Result<Dice, Error> {
    dice_of(captured(token))
}

/// An expression is found where it stands in a token: behind any text that holds no digit,
/// and before any text that does not begin with a digit. What is found is the first
/// expression of the token, whatever the text behind it holds.
pub proof fn lemma_parse_embedded(before: Seq<char>, count: nat, sides: nat, after: Seq<char>)
    requires
        count <= usize::MAX,
        sides <= usize::MAX,
        forall|i: int| 0 <= i < before.len() ==> !is_digit(#[trigger] before[i]),
        after.len() == 0 || !is_digit(after[0]),
    ensures
        parse(before + expression_text(count, sides) + after) == Ok::<Dice, Error>(
            Dice { count: count as usize, sides: sides as usize },
        ),
{
    let head = numeral(count);
    let tail = numeral(sides);
    let t = before + expression_text(count, sides) + after;
    let start = before.len() as int;
    let mid = start + head.len();
    let end = mid + 1 + tail.len();
    lemma_numeral_roundtrip(count);
    lemma_numeral_roundtrip(sides);
    assert forall|k: int| start <= k < mid implies is_digit(#[trigger] t[k]) by {
        assert(t[k] == head[k - start]);
    }
    assert(t[mid] == 'd');
    assert forall|k: int| mid + 1 <= k < end implies is_digit(#[trigger] t[k]) by {
        assert(t[k] == tail[k - mid - 1]);
    }
    if end < t.len() {
        assert(t[end] == after[0]);
    }
    lemma_run_end_is(t, start, mid);
    lemma_run_end_is(t, mid + 1, end);
    assert(begins_at(t, start));
    assert forall|i: int| 0 <= i < start implies !begins_at(t, i) by {
        assert(t[i] == before[i]);
    }
    lemma_first_from(t, 0);
    assert(first_from(t, 0) == Some(start));
    assert(t.subrange(start, mid) =~= head);
    assert(t.subrange(mid + 1, end) =~= tail);
}

/// Parsing the canonical text of an expression gives the expression back: for all counts
/// and sides that `usize` holds, the text `count`, `d`, `sides` parses to exactly these two.
pub proof fn lemma_parse_expression_text(count: nat, sides: nat)
    requires
        count <= usize::MAX,
        sides <= usize::MAX,
    ensures
        parse(expression_text(count, sides)) == Ok::<Dice, Error>(
            Dice { count: count as usize, sides: sides as usize },
        ),
{
    let t = expression_text(count, sides);
    lemma_parse_embedded(Seq::empty(), count, sides, Seq::empty());
    assert(Seq::<char>::empty() + t + Seq::<char>::empty() =~= t);
}

/// Whether the count and the sides of `d` stand in `token` from `start` on: a run of ASCII
/// digits that denotes the count up to `mid`, the letter `d`, and a run of ASCII digits that
/// denotes the sides up to `end`.
pub open spec fn stands_at(token: Seq<char>, d: Dice, start: int, mid: int, end: int) -> bool {
    &&& 0 <= start < mid
    &&& mid + 1 < end <= token.len()
    &&& token[mid] == 'd'
    &&& parsed(token.subrange(start, mid)) == Some(d.count)
    &&& parsed(token.subrange(mid + 1, end)) == Some(d.sides)
}

/// What a token parses to stands in the token: its count and its sides are the numbers that
/// two runs of ASCII digits denote, with the letter `d` between them.
pub proof fn lemma_parse_ok(token: Seq<char>, d: Dice)
    requires
        parse(token) == Ok::<Dice, Error>(d),
    ensures
        exists|start: int, mid: int, end: int| stands_at(token, d, start, mid, end),
{
    lemma_first_from(token, 0);
    let start = first_from(token, 0)->0;
    let mid = run_end(token, start);
    let end = run_end(token, mid + 1);
    lemma_run_end(token, start);
    lemma_run_end(token, mid + 1);
    assert(stands_at(token, d, start, mid, end));
}

/// A token without an ASCII digit, the letter `d` and an ASCII digit in a row does not
/// parse.
pub proof fn lemma_parse_rejects(token: Seq<char>)
    requires
        forall|i: int|
            0 <= i && i + 2 < token.len() ==> !(is_ascii_digit(#[trigger] token[i]) && token[i
                + 1] == 'd' && is_ascii_digit(token[i + 2])),
    ensures
        parse(token) == Err::<Dice, Error>(Error),
{
    lemma_first_from(token, 0);
    if let Some(start) = first_from(token, 0) {
        let mid = run_end(token, start);
        let end = run_end(token, mid + 1);
        lemma_run_end(token, start);
        lemma_run_end(token, mid + 1);
        let count = token.subrange(start, mid);
        let sides = token.subrange(mid + 1, end);
        if parsed(count) is Some && parsed(sides) is Some {
            assert(is_ascii_digit(count[mid - 1 - start]));
            assert(is_ascii_digit(sides[0]));
            assert(is_ascii_digit(token[mid - 1]));
            assert(false);
        }
    }
}

impl Error {
    /// What to tell the user.
    pub fn to_string(&self) -> (text: String)
        ensures
            text@ == "Error while parsing dice"@,
    {
        String::from_str("Error while parsing dice")
    }
}

impl Dice {
    /// The text of this expression, as `expression_text` writes it.
    pub open spec fn text(self) -> Seq<char> {
        expression_text(self.count as nat, self.sides as nat)
    }

    /// Reads the two captured runs of digits as count and sides.
    pub fn from_captures(groups: Option<(String, String)>) -> (r: Result<Dice, Error>)
        ensures
            r == dice_of(groups_view(groups)),
    {
        match groups {
            None => Err(Error),
            Some((count, sides)) => {
                let count = match parse_numeral(count.as_str()) {
                    Some(n) => n,
                    None => { return Err(Error); },
                };
                let sides = match parse_numeral(sides.as_str()) {
                    Some(n) => n,
                    None => { return Err(Error); },
                };
                Ok(Dice { count, sides })
            },
        }
    }

    /// The canonical text: count, `d`, sides.
    pub fn to_string(&self) -> (text: String)
        ensures
            text@ == self.text(),
    {
        let mut text = String::new();
        push_numeral(&mut text, self.count as u128);
        proof {
            reveal_strlit("d");
        }
        text.append("d");
        push_numeral(&mut text, self.sides as u128);
        assert(text@ =~= self.text());
        text
    }
}

impl<'a> TryFrom<&'a str> for Dice {
    type Error = Error;

    /// Parses the first dice expression found anywhere in `value`.
    fn try_from(value: &'a str) -> (r: Result<Dice, Error>)
        ensures
            r == parse(value@),
    {
        Dice::from_captures(captures(value))
    }
}

impl<'a> vstd::std_specs::convert::TryFromSpecImpl<&'a str> for Dice {
    open spec fn obeys_try_from_spec() -> bool {
        true
    }

    open spec fn try_from_spec(value: &'a str) -> Result<Dice, Error> {
        parse(value@)
    }
}

impl TryFrom<String> for Dice {
    type Error = Error;

    /// Parses the first dice expression found anywhere in `value`.
    fn try_from(value: String) -> (r: Result<Dice, Error>)
        ensures
            r == parse(value@),
    {
        Dice::try_from(value.as_str())
    }
}

impl vstd::std_specs::convert::TryFromSpecImpl<String> for Dice {
    open spec fn obeys_try_from_spec() -> bool {
        true
    }

    open spec fn try_from_spec(value: String) -> Result<Dice, Error> {
        parse(value@)
    }
}

} // verus!
