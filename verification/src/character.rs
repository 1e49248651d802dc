//! The three-way verdict on one position of the text.

use vstd::pervasive::unreached;
use vstd::prelude::*;

verus! {

/// How one position of the page compares with what was typed there.
#[derive(Debug, Clone, Copy, PartialEq, Eq, Structural)]
pub enum Character {
    /// Correctly typed character
    Hit(char),
    /// Incorrectly typed character; carries what was typed
    Miss(char),
    /// Untyped character; carries what is expected
    Empty(char),
}

/// The verdict on a position, given what the target holds there and what was
/// typed there. A position where both are absent has no verdict.
pub open spec fn verdict(target: Option<char>, input: Option<char>) -> Character
    recommends
        target is Some || input is Some,
{
    match input {
        Some(i) => if target == Some(i) {
            Character::Hit(i)
        } else {
            Character::Miss(i)
        },
        None => Character::Empty(target.unwrap()),
    }
}

/// Classifies one position. At least one of the two characters is present.
pub fn classify_character(target: Option<char>, input: Option<char>) -> (r: Character)
    requires
        target is Some || input is Some,
    ensures
        r == verdict(target, input),
        input is None ==> r == Character::Empty(target.unwrap()),
        input is Some && target == input ==> r == Character::Hit(input.unwrap()),
        input is Some && target != input ==> r == Character::Miss(input.unwrap()),
{
    match (target, input) {
        (Some(t), Some(i)) => if t == i {
            Character::Hit(t)
        } else {
            Character::Miss(i)
        },
        (None, Some(i)) => Character::Miss(i),
        (Some(t), None) => Character::Empty(t),
        (None, None) => unreached(),
    }
}

} // verus!
