//! The generic metrics pipeline: a per-tick reducer of world state to one
//! aggregate record, observers of the record stream, tick listeners with
//! cross-tick memory, and the append-only record sequence.

use vstd::prelude::*;

verus! {

/// A per-tick metrics reducer: observes the state and emits one record,
/// without mutating the world.
pub trait Metrics: Sized {
    type State;

    type Record;

    /// What the reducer asks of a state it is shown.
    spec fn state_pre(s: Self::State) -> bool;

    /// The record emitted for a state.
    spec fn record_spec(s: Self::State) -> Self::Record;

    /// How the reducer's own state evolves when it records.
    spec fn stepped(pre: Self, s: Self::State) -> Self;

    /// Observe the state and emit a metric snapshot.
    fn record(&mut self, state: &Self::State) -> (r: Self::Record)
        requires
            Self::state_pre(*state),
        ensures
            r == Self::record_spec(*state),
            *final(self) == Self::stepped(*old(self), *state),
    ;
}

/// An observer of the per-tick record stream.
pub trait MetricsObserver<R>: Sized {
    /// How one observation changes the observer.
    spec fn observed(pre: Self, record: R) -> Self;

    fn observe(&mut self, record: &R)
        ensures
            *final(self) == Self::observed(*old(self), *record),
    ;
}

/// A listener invoked once per tick, after the metrics reducer, with the
/// state and the tick's global record; used by collectors that need
/// cross-tick memory.
pub trait TickListener<S, G>: Sized + View {
    /// Listener-local well-formedness, preserved across ticks.
    spec fn inv(&self) -> bool;

    /// What the listener asks of a state it is shown.
    spec fn state_pre(s: S) -> bool;

    /// How one tick's observation changes the listener, at the level of
    /// its view.
    spec fn on_ticked(pre: Self::V, state: S, global: G) -> Self::V;

    fn on_tick(&mut self, state: &S, global: &G)
        requires
            old(self).inv(),
            Self::state_pre(*state),
        ensures
            final(self).inv(),
            final(self)@ == Self::on_ticked(old(self)@, *state, *global),
    ;
}

/// The ordered, append-only sequence of per-tick records.
pub struct MetricsRecorder<R> {
    pub records: Vec<R>,
}

impl<R> MetricsRecorder<R> {
    pub fn new() -> (r: Self)
        ensures
            r.records@ == Seq::<R>::empty(),
    {
        MetricsRecorder { records: Vec::new() }
    }

    pub fn push(&mut self, record: R)
        ensures
            final(self).records@ == old(self).records@.push(record),
    {
        self.records.push(record);
    }
}

} // verus!
