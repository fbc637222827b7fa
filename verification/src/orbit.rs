//! The states that a generator passes through: every draw and every jump
//! moves the state a known number of steps along one orbit of the
//! transition, and no orbit but that of zero holds zero.

use vstd::prelude::*;
use vstd::arithmetic::power2::{pow2, lemma_pow2_unfold};
use crate::field::{lemma_apply_times, square};
use crate::jump::{apply, jump_poly, lemma_jump_distance, long_jump_poly};
use crate::linear::{lemma_steps_add, lemma_steps_one, lemma_steps_zero_only};
use crate::state::{State, lemma_step_fixes_zero_only};

verus! {

/// One way in which a generator changes its state.
pub enum Move {
    /// One transition, as after drawing a word.
    Step,
    /// A jump.
    Jump,
    /// A long jump.
    LongJump,
}

impl Move {
    /// The state that this move leads to from `s`.
    pub open spec fn applied(self, s: State) -> State {
        match self {
            Move::Step => s.step(),
            Move::Jump => apply(jump_poly(), s),
            Move::LongJump => apply(long_jump_poly(), s),
        }
    }

    /// The number of steps that this move stands for.
    pub open spec fn distance(self) -> nat {
        match self {
            Move::Step => 1,
            Move::Jump => pow2(64),
            Move::LongJump => pow2(96),
        }
    }
}

/// The state reached from `s` by the moves of `moves`, in their order.
pub open spec fn run(s: State, moves: Seq<Move>) -> State
    decreases moves.len(),
{
    if moves.len() == 0 {
        s
    } else {
        moves.last().applied(run(s, moves.drop_last()))
    }
}

/// The number of steps that the moves of `moves` stand for together.
pub open spec fn total(moves: Seq<Move>) -> nat
    decreases moves.len(),
{
    if moves.len() == 0 {
        0
    } else {
        total(moves.drop_last()) + moves.last().distance()
    }
}

/// Any moves lead to the state as many steps ahead as they stand for
/// together.
pub proof fn lemma_run_is_steps(s: State, moves: Seq<Move>)
    ensures
        run(s, moves) == s.steps(total(moves)),
    decreases moves.len(),
{
    if moves.len() > 0 {
        let before = moves.drop_last();
        lemma_run_is_steps(s, before);
        let mid = s.steps(total(before));
        lemma_jump_distance(mid);
        lemma_steps_one(mid);
        lemma_steps_add(s, total(before), moves.last().distance());
    }
}

/// From a state other than zero, no number of transitions, jumps and long
/// jumps, in any order, leads to zero.
pub proof fn lemma_run_never_zero(s: State, moves: Seq<Move>)
    requires
        !s.is_zero(),
    ensures
        !run(s, moves).is_zero(),
{
    lemma_run_is_steps(s, moves);
    lemma_steps_zero_only(s, total(moves));
}

/// A generator never stands still: its state is not zero, and zero is the
/// one state that the transition leaves as it is.
pub proof fn lemma_step_moves(s: State)
    requires
        !s.is_zero(),
    ensures
        s.step() != s,
        !s.step().is_zero(),
{
    lemma_step_fixes_zero_only(s);
    crate::state::lemma_step_zero_only(s);
}

/// Two jumps in a row take `2^65` steps, and are the one jump by the
/// square of the jump polynomial.
pub proof fn lemma_jump_twice(s: State)
    ensures
        apply(jump_poly(), apply(jump_poly(), s)) == s.steps(pow2(65)),
        apply(jump_poly(), apply(jump_poly(), s)) == apply(square(jump_poly()), s),
{
    lemma_jump_distance(s);
    lemma_jump_distance(s.steps(pow2(64)));
    lemma_steps_add(s, pow2(64), pow2(64));
    lemma_pow2_unfold(65);
    lemma_apply_times(jump_poly(), jump_poly(), s);
}

/// A jump and a long jump give the same state in either order.
pub proof fn lemma_jumps_commute(s: State)
    ensures
        apply(jump_poly(), apply(long_jump_poly(), s)) == apply(
            long_jump_poly(),
            apply(jump_poly(), s),
        ),
{
    lemma_jump_distance(s);
    lemma_jump_distance(s.steps(pow2(64)));
    lemma_jump_distance(s.steps(pow2(96)));
    lemma_steps_add(s, pow2(64), pow2(96));
    lemma_steps_add(s, pow2(96), pow2(64));
}

} // verus!
