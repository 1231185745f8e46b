//! The scripted opponent's skip decision: an external actor that submits
//! the same commands a human client would; only this desirability scoring
//! is part of the library.

use vstd::prelude::*;

verus! {

/// Scores how much a robot wants to end its turn.
#[derive(Clone, Copy, PartialEq, Eq, Structural, Debug, Default)]
pub struct SkipGoalEvaluator {
}

impl SkipGoalEvaluator {
    /// Skipping is maximally desirable exactly when nothing else is left:
    /// no movement points, no attack, no usable skill.
    pub fn calculate_desirability(&self, residue_movement_points: u32, is_can_attack: bool, can_use_skill: bool) -> (r: u32)
        ensures
            r == if residue_movement_points == 0 && !is_can_attack && !can_use_skill {
                100u32
            } else {
                0u32
            },
    {
        if residue_movement_points == 0 && !is_can_attack && !can_use_skill {
            100
        } else {
            0
        }
    }
}

} // verus!
