//! The generic domain capability: a domain owns the evolving world state
//! and advances it by exactly one discrete tick, possibly reporting a
//! terminal protocol failure.

use vstd::prelude::*;
use crate::errors::TerminalFailure;

verus! {

/// A simulation domain. Each implementation supplies the specification of
/// its own initialization and tick transition, so that the engine's
/// contract can speak about runs of any domain.
pub trait Domain: Sized {
    type State;

    /// Well-formedness of the domain's immutable configuration.
    spec fn inv(&self) -> bool;

    /// The state invariant: established by `init_state`, preserved by
    /// every `tick`.
    spec fn state_inv(s: Self::State) -> bool;

    /// What `init_state` returns for this domain.
    spec fn init_rel(d: Self, s: Self::State) -> bool;

    /// The transition relation of one successful tick. A domain with
    /// internal randomness quantifies over its draws here.
    spec fn tick_rel(pre: Self::State, post: Self::State) -> bool;

    /// The transition relation of a failing tick: how far the state got,
    /// and which terminal failure was reported.
    spec fn tick_err(pre: Self::State, post: Self::State, e: TerminalFailure) -> bool;

    /// Initialize the world state from the domain's configuration.
    fn init_state(&self) -> (s: Self::State)
        requires
            self.inv(),
        ensures
            Self::init_rel(*self, s),
            Self::state_inv(s),
    ;

    /// Advance the domain by exactly one tick, or report a terminal
    /// failure that means the simulation cannot meaningfully continue.
    fn tick(&mut self, state: &mut Self::State) -> (r: Result<(), TerminalFailure>)
        requires
            old(self).inv(),
            Self::state_inv(*old(state)),
        ensures
            final(self).inv(),
            Self::state_inv(*final(state)),
            match r {
                Ok(()) => Self::tick_rel(*old(state), *final(state)),
                Err(e) => Self::tick_err(*old(state), *final(state), e),
            },
    ;
}

} // verus!
