//! Rolling dice, and what kind of roll a value is.

use crate::dice::Dice;
use vstd::prelude::*;

verus! {

/// The generator `rand::rngs::ThreadRng`, of which nothing is known here but that it can be
/// drawn from.
#[verifier::external_type_specification]
#[verifier::external_body]
pub struct ExThreadRng(rand::rngs::ThreadRng);

/// What kind of roll a value is.
#[derive(Debug, Clone, Copy, PartialEq, Eq, Structural)]
pub enum Outcome {
    /// Neither one nor the highest face.
    Ordinary,
    /// A one.
    CriticalMin,
    /// The highest face, where that is not a one.
    CriticalMax,
}

/// The kind of a roll of `value` on a die of `sides` sides. One is the critical minimum
/// whatever the die, so a die of one side never rolls a critical maximum.
pub open spec fn outcome_of(value: nat, sides: nat) -> Outcome {
    if value == 1 {
        Outcome::CriticalMin
    } else if value == sides {
        Outcome::CriticalMax
    } else {
        Outcome::Ordinary
    }
}

/// Whether each of `rolls` is a face of a die of `sides` sides: one at least, `sides` at most.
pub open spec fn are_faces(rolls: Seq<usize>, sides: nat) -> bool {
    forall|i: int| 0 <= i < rolls.len() ==> 1 <= #[trigger] rolls[i] <= sides
}

/// Whether `rolls` is a roll of `d`: one face for each die.
pub open spec fn is_roll_of(d: Dice, rolls: Seq<usize>) -> bool {
    rolls.len() == d.count && are_faces(rolls, d.sides as nat)
}

/// Whether `d` can be rolled: there is no die to roll, or the dice have a face.
pub open spec fn rollable(d: Dice) -> bool {
    d.count == 0 || d.sides >= 1
}

/// Tells whether `d` can be rolled.
pub fn is_rollable(d: &Dice) -> (yes: bool)
    ensures
        yes == rollable(*d),
{
    d.count == 0 || d.sides >= 1
}

/// A face is a critical minimum exactly if it is one, and a critical maximum exactly if it
/// is the highest face and not one. So on a die of more than one side no face is both the
/// one and the other, and on a die of one side every face is a critical minimum.
pub proof fn lemma_outcome_of_face(value: nat, sides: nat)
    requires
        1 <= value <= sides,
    ensures
        outcome_of(value, sides) == Outcome::CriticalMin <==> value == 1,
        outcome_of(value, sides) == Outcome::CriticalMax <==> value == sides && sides > 1,
        sides == 1 ==> outcome_of(value, sides) == Outcome::CriticalMin,
{
}

/// Tells what kind of roll `value` is on a die of `sides` sides.
pub fn classify(value: usize, sides: usize) -> (outcome: Outcome)
    ensures
        outcome == outcome_of(value as nat, sides as nat),
{
    if value == 1 {
        Outcome::CriticalMin
    } else if value == sides {
        Outcome::CriticalMax
    } else {
        Outcome::Ordinary
    }
}

/// Draws one face of a die of `sides` sides with `rand::Rng::gen_range` on `1..=sides`.
///
/// Believed of the `rand` crate: on a range that is not empty the call returns, and what it
/// returns lies in the range. Nothing is said of which face comes.
#[verifier::external_body]
pub(crate) fn draw(rng: &mut rand::rngs::ThreadRng, sides: usize) -> (face: usize)
    requires
        sides >= 1,
    ensures
        1 <= face <= sides,
{
    rand::Rng::gen_range(rng, 1..=sides)
}

/// Rolls the dice of `d`, one after the other.
pub fn roll(d: &Dice, rng: &mut rand::rngs::ThreadRng) -> (rolls: Vec<usize>)
    requires
        rollable(*d),
    ensures
        is_roll_of(*d, rolls@),
{
    let mut rolls: Vec<usize> = Vec::new();
    let mut i: usize = 0;
    while i < d.count
        invariant
            i <= d.count,
            d.sides >= 1 || d.count == 0,
            rolls@.len() == i,
            are_faces(rolls@, d.sides as nat),
        decreases d.count - i,
    {
        let face = draw(rng, d.sides);
        rolls.push(face);
        i = i + 1;
    }
    rolls
}

} // verus!
