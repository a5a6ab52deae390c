//! The contract of a state machine: a pure function from a state and a
//! transition to the next state.

use vstd::prelude::*;

verus! {

/// A state machine. States are told apart by their views.
pub trait StateMachine {
    /// The states of the machine.
    type State: View;

    /// What can happen to the machine.
    type Transition;

    /// The state that follows `starting` when `t` happens.
    spec fn next(starting: <Self::State as View>::V, t: Self::Transition) -> <Self::State as View>::V;

    /// Computes the state that follows `starting_state` when `t` happens.
    fn next_state(starting_state: &Self::State, t: &Self::Transition) -> (next: Self::State)
        ensures
            next@ == Self::next(starting_state@, *t),
    ;
}

/// The state that a machine reaches from `starting` after the transitions
/// of `body`, in order.
pub open spec fn replayed<SM: StateMachine>(
    starting: <SM::State as View>::V,
    body: Seq<SM::Transition>,
) -> <SM::State as View>::V
    decreases body.len(),
{
    if body.len() == 0 {
        starting
    } else {
        SM::next(replayed::<SM>(starting, body.drop_last()), body.last())
    }
}

} // verus!
