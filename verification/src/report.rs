//! The text report of a roll: a block of lines, all of one display width.

use crate::columns::{columns, is_plain, is_plain_text, lemma_columns_plain, measure};
use crate::decimal::{
    is_ascii_digit, lemma_numeral_len_monotonic, lemma_numeral_roundtrip, lemma_shown_number,
    numeral, shown_number, to_numeral,
};
use crate::dice::{expression_text, Dice};
use crate::layout::{
    aligned, lemma_columns_aligned, lemma_columns_tagged, line_of, right_align, room_behind,
    rule, tag, tagged, widest, widest_of,
};
use crate::roll::{are_faces, classify, is_roll_of, outcome_of, roll, rollable, Outcome};
use vstd::prelude::*;

verus! {

/// The glyph that heads the report of an expression.
pub const DICE: &'static str = "🎲";

/// The glyph that marks a roll of the highest face.
pub const CRIT_MAX: &'static str = "😀";

/// The glyph that marks a roll of one.
pub const CRIT_MIN: &'static str = "😰";

/// The display width of the report of `d`: the columns that its widest line can need. That
/// is the most of: the dice glyph, a space and the text of the expression; the text of the
/// sides, a space and the glyph of a critical minimum; the same with the glyph of a critical
/// maximum; and the text of `count * sides`, the highest sum there can be.
pub open spec fn width_of(d: Dice) -> nat {
    widest(
        columns(DICE@),
        columns(d.text()),
        columns(numeral(d.sides as nat)),
        columns(CRIT_MIN@),
        columns(CRIT_MAX@),
        columns(numeral(d.count as nat * d.sides as nat)),
    )
}

/// The glyph that marks a roll of a kind; none for an ordinary roll.
pub open spec fn glyph_of(outcome: Outcome) -> Seq<char> {
    match outcome {
        Outcome::Ordinary => Seq::empty(),
        Outcome::CriticalMin => CRIT_MIN@,
        Outcome::CriticalMax => CRIT_MAX@,
    }
}

/// The line of one roll in a report of display width `width`.
pub open spec fn roll_line(value: nat, sides: nat, width: nat) -> Seq<char> {
    tagged(glyph_of(outcome_of(value, sides)), numeral(value), width)
}

/// The sum of the rolls.
pub open spec fn total(rolls: Seq<usize>) -> nat
    decreases rolls.len(),
{
    if rolls.len() == 0 {
        0
    } else {
        total(rolls.drop_last()) + rolls.last() as nat
    }
}

/// The report of the rolls of `d`, line by line: a rule of `=`; the dice glyph and the
/// expression; an empty line; one line for each roll; a rule of `-`; the sum; a rule of `=`.
pub open spec fn report(d: Dice, rolls: Seq<usize>) -> Seq<Seq<char>> {
    let width = width_of(d);
    seq![line_of('=', width), tagged(DICE@, d.text(), width), Seq::<char>::empty()] + Seq::new(
        rolls.len(),
        |i: int| roll_line(rolls[i] as nat, d.sides as nat, width),
    ) + seq![line_of('-', width), aligned(numeral(total(rolls)), width), line_of('=', width)]
}

/// The texts of a list of lines.
pub open spec fn texts(lines: Seq<String>) -> Seq<Seq<char>> {
    Seq::new(lines.len(), |i: int| lines[i]@)
}

/// Whether `line` begins with the characters of `glyph`.
pub open spec fn begins_with(line: Seq<char>, glyph: Seq<char>) -> bool {
    glyph.len() <= line.len() && line.subrange(0, glyph.len() as int) == glyph
}

/// The text of a number holds printable ASCII characters only.
pub proof fn lemma_numeral_plain(n: nat)
    ensures
        is_plain_text(numeral(n)),
        columns(numeral(n)) == numeral(n).len(),
{
    lemma_numeral_roundtrip(n);
    assert forall|i: int| 0 <= i < numeral(n).len() implies is_plain(#[trigger] numeral(n)[i]) by {
        assert(is_ascii_digit(numeral(n)[i]));
    }
    lemma_columns_plain(numeral(n));
}

/// The text of an expression holds printable ASCII characters only.
pub proof fn lemma_expression_text_plain(count: nat, sides: nat)
    ensures
        is_plain_text(expression_text(count, sides)),
        columns(expression_text(count, sides)) == expression_text(count, sides).len(),
{
    let t = expression_text(count, sides);
    let head = numeral(count);
    lemma_numeral_plain(count);
    lemma_numeral_plain(sides);
    assert forall|i: int| 0 <= i < t.len() implies is_plain(#[trigger] t[i]) by {
        if i < head.len() {
            assert(t[i] == head[i]);
        } else if i > head.len() {
            assert(t[i] == numeral(sides)[i - head.len() - 1]);
        }
    }
    lemma_columns_plain(t);
}

/// The sum of faces of a die is no more than the highest face for each.
pub proof fn lemma_total_of_faces(rolls: Seq<usize>, sides: nat)
    requires
        are_faces(rolls, sides),
    ensures
        total(rolls) <= rolls.len() * sides,
    decreases rolls.len(),
{
    if rolls.len() > 0 {
        let init = rolls.drop_last();
        assert forall|i: int| 0 <= i < init.len() implies 1 <= #[trigger] init[i] <= sides by {
            assert(init[i] == rolls[i]);
        }
        lemma_total_of_faces(init, sides);
        assert(total(rolls) <= rolls.len() * sides) by (nonlinear_arith)
            requires
                total(rolls) == total(init) + rolls.last() as nat,
                total(init) <= (rolls.len() - 1) * sides,
                rolls.last() <= sides,
        ;
    }
}

/// The lines of a report, one by one: three lines of header, a line for each roll, three
/// lines of footer, of which the middle one holds the sum of the rolls.
pub proof fn lemma_report_lines(d: Dice, rolls: Seq<usize>)
    ensures
        report(d, rolls).len() == rolls.len() + 6,
        report(d, rolls)[0] == line_of('=', width_of(d)),
        report(d, rolls)[1] == tagged(DICE@, d.text(), width_of(d)),
        report(d, rolls)[2] == Seq::<char>::empty(),
        forall|i: int|
            0 <= i < rolls.len() ==> #[trigger] report(d, rolls)[3 + i] == roll_line(
                rolls[i] as nat,
                d.sides as nat,
                width_of(d),
            ),
        report(d, rolls)[rolls.len() as int + 3] == line_of('-', width_of(d)),
        report(d, rolls)[rolls.len() as int + 4] == aligned(numeral(total(rolls)), width_of(d)),
        report(d, rolls)[rolls.len() as int + 5] == line_of('=', width_of(d)),
{
}

/// Without a roll the report has no line between header and footer, and its sum reads `0`.
pub proof fn lemma_report_without_rolls(d: Dice)
    ensures
        report(d, Seq::empty()) == seq![
            line_of('=', width_of(d)),
            tagged(DICE@, d.text(), width_of(d)),
            Seq::<char>::empty(),
            line_of('-', width_of(d)),
            aligned(seq!['0'], width_of(d)),
            line_of('=', width_of(d)),
        ],
{
    let rolls = Seq::<usize>::empty();
    lemma_report_lines(d, rolls);
    assert(numeral(0) =~= seq!['0']);
    assert(report(d, rolls) =~= seq![
        line_of('=', width_of(d)),
        tagged(DICE@, d.text(), width_of(d)),
        Seq::<char>::empty(),
        line_of('-', width_of(d)),
        aligned(seq!['0'], width_of(d)),
        line_of('=', width_of(d)),
    ]);
}

/// The line of a face of the die fills the display width exactly.
pub proof fn lemma_roll_line_fills(d: Dice, value: nat)
    requires
        1 <= value <= d.sides,
    ensures
        columns(roll_line(value, d.sides as nat, width_of(d))) == width_of(d),
{
    let width = width_of(d);
    let glyph = glyph_of(outcome_of(value, d.sides as nat));
    lemma_numeral_plain(value);
    lemma_numeral_plain(d.sides as nat);
    lemma_numeral_len_monotonic(value, d.sides as nat);
    lemma_columns_tagged(glyph, numeral(value), width);
}

/// Every line of the report of a roll of `d` is as wide as the display width of `d`, but for
/// the empty line of the header: no line is wider, and the first line fills the width.
pub proof fn lemma_width_suffices(d: Dice, rolls: Seq<usize>)
    requires
        is_roll_of(d, rolls),
    ensures
        forall|i: int|
            0 <= i < report(d, rolls).len() ==> columns(#[trigger] report(d, rolls)[i])
                <= width_of(d),
        forall|i: int|
            0 <= i < report(d, rolls).len() && i != 2 ==> columns(
                #[trigger] report(d, rolls)[i],
            ) == width_of(d),
        columns(report(d, rolls)[0]) == width_of(d),
{
    let width = width_of(d);
    let lines = report(d, rolls);
    let n = rolls.len() as int;
    lemma_report_lines(d, rolls);
    lemma_columns_plain(line_of('=', width));
    lemma_columns_plain(line_of('-', width));
    lemma_expression_text_plain(d.count as nat, d.sides as nat);
    lemma_columns_tagged(DICE@, d.text(), width);
    lemma_total_of_faces(rolls, d.sides as nat);
    lemma_numeral_len_monotonic(total(rolls), d.count as nat * d.sides as nat);
    lemma_numeral_plain(total(rolls));
    lemma_numeral_plain(d.count as nat * d.sides as nat);
    lemma_columns_aligned(numeral(total(rolls)), width);
    assert forall|i: int| 0 <= i < lines.len() && i != 2 implies columns(#[trigger] lines[i])
        == width by {
        if 3 <= i < n + 3 {
            assert(lines[3 + (i - 3)] == roll_line(
                rolls[i - 3] as nat,
                d.sides as nat,
                width,
            ));
            lemma_roll_line_fills(d, rolls[i - 3] as nat);
        }
    }
    assert(columns(lines[2]) == 0);
}

/// The line of a roll begins with the glyph of a critical minimum exactly if the roll is a
/// one, and with the glyph of a critical maximum exactly if it is the highest face and not
/// a one. No line begins with both.
pub proof fn lemma_roll_line_glyph(value: nat, sides: nat, width: nat)
    ensures
        begins_with(roll_line(value, sides, width), CRIT_MIN@) <==> value == 1,
        begins_with(roll_line(value, sides, width), CRIT_MAX@) <==> value == sides && value != 1,
{
    reveal_strlit("😀");
    reveal_strlit("😰");
    let line = roll_line(value, sides, width);
    let glyph = glyph_of(outcome_of(value, sides));
    let body = aligned(numeral(value), room_behind(glyph, width));
    lemma_numeral_plain(value);
    lemma_columns_aligned(numeral(value), room_behind(glyph, width));
    lemma_numeral_len_monotonic(0, value);
    assert(is_plain(body[0]));
    assert(line[0] == (glyph + body)[0]);
    assert(CRIT_MIN@.len() == 1 && CRIT_MAX@.len() == 1);
    assert(line.subrange(0, 1)[0] == line[0]);
    if outcome_of(value, sides) == Outcome::CriticalMin {
        assert(line.subrange(0, 1) =~= CRIT_MIN@);
    } else if outcome_of(value, sides) == Outcome::CriticalMax {
        assert(line.subrange(0, 1) =~= CRIT_MAX@);
    }
}

/// What a report shows is what was rolled: the line of each roll shows that roll, and the
/// line of the sum shows the sum of all the rolls.
pub proof fn lemma_report_shows_sum(d: Dice, rolls: Seq<usize>)
    ensures
        forall|i: int|
            0 <= i < rolls.len() ==> shown_number(#[trigger] report(d, rolls)[3 + i])
                == rolls[i],
        shown_number(report(d, rolls)[rolls.len() as int + 4]) == total(rolls),
{
    reveal_strlit("😀");
    reveal_strlit("😰");
    let width = width_of(d);
    lemma_report_lines(d, rolls);
    assert forall|i: int| 0 <= i < rolls.len() implies shown_number(
        #[trigger] report(d, rolls)[3 + i],
    ) == rolls[i] by {
        let value = rolls[i] as nat;
        let glyph = glyph_of(outcome_of(value, d.sides as nat));
        lemma_shown_aligned(glyph, value, room_behind(glyph, width));
    }
    lemma_shown_aligned(Seq::empty(), total(rolls), width);
    assert(Seq::<char>::empty() + aligned(numeral(total(rolls)), width) =~= aligned(
        numeral(total(rolls)),
        width,
    ));
}

/// A number at the right edge of a field, behind a text that does not end in a digit, is
/// the number that the line shows.
proof fn lemma_shown_aligned(before: Seq<char>, n: nat, width: nat)
    requires
        before.len() == 0 || !is_ascii_digit(before.last()),
    ensures
        shown_number(before + aligned(numeral(n), width)) == n,
{
    let text = numeral(n);
    if text.len() >= width {
        lemma_shown_number(before, n);
    } else {
        let pad = line_of(' ', (width - text.len()) as nat);
        assert((before + pad).last() == ' ');
        lemma_shown_number(before + pad, n);
        assert(before + aligned(text, width) =~= (before + pad) + text);
    }
}

/// Computes the display width of the report of `d`, measuring the glyphs and the texts.
pub fn display_width(d: &Dice) -> (width: u128)
    ensures
        width == width_of(*d),
{
    let text = d.to_string();
    let sides = to_numeral(d.sides as u128);
    assert(d.count as nat * d.sides as nat <= u128::MAX) by (nonlinear_arith)
        requires
            d.count <= 0xffff_ffff_ffff_ffff,
            d.sides <= 0xffff_ffff_ffff_ffff,
    ;
    let most = to_numeral(d.count as u128 * d.sides as u128);
    widest_of(
        measure(DICE),
        measure(text.as_str()),
        measure(sides.as_str()),
        measure(CRIT_MIN),
        measure(CRIT_MAX),
        measure(most.as_str()),
    )
}

/// Writes the line of one roll for a report of display width `width`.
pub fn format_roll(value: usize, sides: usize, width: u128) -> (line: String)
    ensures
        line@ == roll_line(value as nat, sides as nat, width as nat),
{
    let text = to_numeral(value as u128);
    match classify(value, sides) {
        Outcome::CriticalMin => tag(CRIT_MIN, text.as_str(), width),
        Outcome::CriticalMax => tag(CRIT_MAX, text.as_str(), width),
        Outcome::Ordinary => {
            let line = right_align(text.as_str(), width);
            assert(line@ =~= roll_line(value as nat, sides as nat, width as nat));
            line
        },
    }
}

/// The sum of rolls is no more than the largest `usize` for each.
proof fn lemma_total_bounded(rolls: Seq<usize>)
    ensures
        total(rolls) <= rolls.len() * usize::MAX,
    decreases rolls.len(),
{
    if rolls.len() > 0 {
        lemma_total_bounded(rolls.drop_last());
        assert(total(rolls) <= rolls.len() * usize::MAX) by (nonlinear_arith)
            requires
                total(rolls) == total(rolls.drop_last()) + rolls.last() as nat,
                total(rolls.drop_last()) <= (rolls.len() - 1) * usize::MAX,
                rolls.last() <= usize::MAX,
        ;
    }
}

/// Adds up the rolls.
pub fn sum(rolls: &Vec<usize>) -> (sum: u128)
    ensures
        sum == total(rolls@),
{
    let mut sum: u128 = 0;
    let mut i: usize = 0;
    assert(rolls@.take(0) =~= Seq::<usize>::empty());
    while i < rolls.len()
        invariant
            i <= rolls.len(),
            sum == total(rolls@.take(i as int)),
        decreases rolls.len() - i,
    {
        proof {
            lemma_total_bounded(rolls@.take(i as int));
            assert(i * usize::MAX <= 0xffff_ffff_ffff_ffff * 0xffff_ffff_ffff_ffff)
                by (nonlinear_arith)
                requires
                    i <= 0xffff_ffff_ffff_ffff,
                    usize::MAX <= 0xffff_ffff_ffff_ffff,
            ;
            assert(rolls@.take(i + 1).drop_last() =~= rolls@.take(i as int));
        }
        sum = sum + rolls[i] as u128;
        i = i + 1;
    }
    assert(rolls@.take(i as int) =~= rolls@);
    sum
}

/// Writes the report of `rolls` for the expression `d`: one line for each of the rolls
/// given, whatever their number and their values, between the header and the sum.
pub fn render_rolls(d: &Dice, rolls: &Vec<usize>) -> (lines: Vec<String>)
    ensures
        texts(lines@) == report(*d, rolls@),
{
    let width = display_width(d);
    let text = d.to_string();
    proof {
        reveal_strlit("=");
        reveal_strlit("-");
    }
    let mut lines: Vec<String> = Vec::new();
    lines.push(rule("=", width));
    lines.push(tag(DICE, text.as_str(), width));
    lines.push(String::new());
    let ghost expected = report(*d, rolls@);
    let mut i: usize = 0;
    while i < rolls.len()
        invariant
            i <= rolls.len(),
            width == width_of(*d),
            expected == report(*d, rolls@),
            lines@.len() == 3 + i,
            forall|k: int| 0 <= k < 3 + i ==> (#[trigger] lines@[k])@ == expected[k],
        decreases rolls.len() - i,
    {
        lines.push(format_roll(rolls[i], d.sides, width));
        i = i + 1;
    }
    let sum_text = to_numeral(sum(rolls));
    lines.push(rule("-", width));
    lines.push(right_align(sum_text.as_str(), width));
    lines.push(rule("=", width));
    assert(texts(lines@) =~= expected);
    lines
}

/// Rolls the dice of `d` and writes the report of what they show.
pub fn render(d: &Dice, rng: &mut rand::rngs::ThreadRng) -> (lines: Vec<String>)
    requires
        rollable(*d),
    ensures
        exists|rolls: Seq<usize>| is_roll_of(*d, rolls) && texts(lines@) == report(*d, rolls),
{
    let rolls = roll(d, rng);
    render_rolls(d, &rolls)
}

} // verus!
