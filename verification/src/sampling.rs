//! Sampling strategies: decide, per tick, whether a stake-distribution
//! snapshot should be captured.

use vstd::prelude::*;
use crate::survival::{EventRegistry, SimulationEvent};

verus! {

/// A sampling policy, called once per tick by the distribution collector
/// with the current block and a read-only view of the event registry.
pub trait SamplingStrategy: Sized {
    /// Strategy-local well-formedness.
    spec fn inv(&self) -> bool;

    /// Whether this call samples, given the strategy's state before the
    /// call.
    spec fn samples(pre: Self, block: u64, events: EventRegistry) -> bool;

    /// The strategy's state after the call.
    spec fn stepped(pre: Self, block: u64, events: EventRegistry) -> Self;

    fn should_sample(&mut self, block: u64, events: &EventRegistry) -> (r: bool)
        requires
            old(self).inv(),
        ensures
            final(self).inv(),
            r == Self::samples(*old(self), block, *events),
            *final(self) == Self::stepped(*old(self), block, *events),
    ;
}

/// Periodic sampling: samples exactly when `block % interval == 0`,
/// deterministically and independent of run history.
#[derive(Clone, Copy, Debug, PartialEq, Eq, Structural)]
pub struct EveryNBlocks {
    pub interval: u64,
}

impl SamplingStrategy for EveryNBlocks {
    open spec fn inv(&self) -> bool {
        self.interval > 0
    }

    open spec fn samples(pre: Self, block: u64, events: EventRegistry) -> bool {
        block % pre.interval == 0
    }

    open spec fn stepped(pre: Self, block: u64, events: EventRegistry) -> Self {
        pre
    }

    fn should_sample(&mut self, block: u64, events: &EventRegistry) -> (r: bool) {
        block % self.interval == 0
    }
}

/// Event-triggered sampling: samples at most once, on the first call on
/// which the referenced event is found set in the registry; latched false
/// on every call thereafter.
#[derive(Clone, Copy, Debug, PartialEq, Eq, Structural)]
pub struct OnEvent {
    pub event: SimulationEvent,
    pub fired: bool,
}

impl OnEvent {
    pub fn new(event: SimulationEvent) -> (r: Self)
        ensures
            r == (OnEvent { event, fired: false }),
    {
        OnEvent { event, fired: false }
    }
}

impl SamplingStrategy for OnEvent {
    open spec fn inv(&self) -> bool {
        true
    }

    open spec fn samples(pre: Self, block: u64, events: EventRegistry) -> bool {
        !pre.fired && events.has(pre.event)
    }

    open spec fn stepped(pre: Self, block: u64, events: EventRegistry) -> Self {
        OnEvent { fired: pre.fired || events.has(pre.event), ..pre }
    }

    fn should_sample(&mut self, block: u64, events: &EventRegistry) -> (r: bool) {
        if self.fired {
            return false;
        }
        if events.has_triggered(&self.event) {
            self.fired = true;
            return true;
        }
        false
    }
}

/// A strategy chosen at configuration time: periodic or event-triggered.
#[derive(Clone, Copy, Debug, PartialEq, Eq, Structural)]
pub enum ConfiguredSampler {
    Periodic(EveryNBlocks),
    Triggered(OnEvent),
}

impl SamplingStrategy for ConfiguredSampler {
    open spec fn inv(&self) -> bool {
        match self {
            ConfiguredSampler::Periodic(p) => p.inv(),
            ConfiguredSampler::Triggered(t) => t.inv(),
        }
    }

    open spec fn samples(pre: Self, block: u64, events: EventRegistry) -> bool {
        match pre {
            ConfiguredSampler::Periodic(p) => EveryNBlocks::samples(p, block, events),
            ConfiguredSampler::Triggered(t) => OnEvent::samples(t, block, events),
        }
    }

    open spec fn stepped(pre: Self, block: u64, events: EventRegistry) -> Self {
        match pre {
            ConfiguredSampler::Periodic(p) => ConfiguredSampler::Periodic(
                EveryNBlocks::stepped(p, block, events),
            ),
            ConfiguredSampler::Triggered(t) => ConfiguredSampler::Triggered(
                OnEvent::stepped(t, block, events),
            ),
        }
    }

    fn should_sample(&mut self, block: u64, events: &EventRegistry) -> (r: bool) {
        match self {
            ConfiguredSampler::Periodic(p) => p.should_sample(block, events),
            ConfiguredSampler::Triggered(t) => t.should_sample(block, events),
        }
    }
}

/// The answers an [`OnEvent`] strategy gives over a sequence of registry
/// states, one call per tick.
pub open spec fn on_event_results(s: OnEvent, regs: Seq<EventRegistry>) -> Seq<bool>
    decreases regs.len(),
{
    if regs.len() == 0 {
        Seq::empty()
    } else {
        seq![OnEvent::samples(s, 0, regs[0])] + on_event_results(
            OnEvent::stepped(s, 0, regs[0]),
            regs.drop_first(),
        )
    }
}

/// Over a run in which the registry is append-only, a fresh event-gated
/// strategy answers true exactly once, on the first tick whose registry
/// has the event set, and false on every other tick.
pub proof fn lemma_on_event_once(s: OnEvent, regs: Seq<EventRegistry>)
    requires
        !s.fired,
        forall|i: int, j: int|
            #![trigger regs[i].has(s.event), regs[j].has(s.event)]
            0 <= i <= j < regs.len() && regs[i].has(s.event) ==> regs[j].has(s.event),
    ensures
        on_event_results(s, regs).len() == regs.len(),
        forall|i: int|
            0 <= i < regs.len() ==> (#[trigger] on_event_results(s, regs)[i] <==> (
            regs[i].has(s.event) && forall|j: int| 0 <= j < i ==> !regs[j].has(s.event))),
    decreases regs.len(),
{
    if regs.len() > 0 {
        let s2 = OnEvent::stepped(s, 0, regs[0]);
        let rest = regs.drop_first();
        let res = on_event_results(s, regs);
        if regs[0].has(s.event) {
            lemma_on_event_fired_all_false(s2, rest);
            assert(res[0]);
            assert forall|i: int|
                0 <= i < regs.len() implies (#[trigger] res[i] <==> (regs[i].has(s.event)
                && forall|j: int| 0 <= j < i ==> !regs[j].has(s.event))) by {
                if i > 0 {
                    assert(res[i] == on_event_results(s2, rest)[i - 1]);
                    assert(!res[i]);
                    assert(regs[0].has(s.event));
                }
            }
        } else {
            assert(s2 == s);
            assert forall|i: int, j: int|
                #![trigger rest[i].has(s.event), rest[j].has(s.event)]
                0 <= i <= j < rest.len() && rest[i].has(s.event) implies rest[j].has(
                s.event,
            ) by {
                assert(rest[i] == regs[i + 1]);
                assert(rest[j] == regs[j + 1]);
            }
            lemma_on_event_once(s, rest);
            let res_rest = on_event_results(s, rest);
            assert forall|i: int|
                0 <= i < regs.len() implies (#[trigger] res[i] <==> (regs[i].has(s.event)
                && forall|j: int| 0 <= j < i ==> !regs[j].has(s.event))) by {
                if i == 0 {
                    assert(!res[0]);
                } else {
                    assert(res[i] == res_rest[i - 1]);
                    assert(rest[i - 1] == regs[i]);
                    if res[i] {
                        assert(rest[i - 1].has(s.event));
                        assert forall|j: int| 0 <= j < i implies !regs[j].has(s.event) by {
                            if j > 0 {
                                assert(regs[j] == rest[j - 1]);
                                assert(!rest[j - 1].has(s.event));
                            }
                        }
                    } else {
                        if regs[i].has(s.event) && (forall|j: int|
                            0 <= j < i ==> !regs[j].has(s.event)) {
                            assert forall|j: int| 0 <= j < i - 1 implies !rest[j].has(
                                s.event,
                            ) by {
                                assert(rest[j] == regs[j + 1]);
                            }
                            assert(res_rest[i - 1]);
                            assert(false);
                        }
                    }
                }
            }
        }
    }
}

/// Once latched, an event-gated strategy never samples again.
pub proof fn lemma_on_event_fired_all_false(s: OnEvent, regs: Seq<EventRegistry>)
    requires
        s.fired,
    ensures
        on_event_results(s, regs).len() == regs.len(),
        forall|i: int| 0 <= i < regs.len() ==> !(#[trigger] on_event_results(s, regs)[i]),
    decreases regs.len(),
{
    if regs.len() > 0 {
        lemma_on_event_fired_all_false(OnEvent::stepped(s, 0, regs[0]), regs.drop_first());
        assert forall|i: int|
            0 <= i < regs.len() implies !(#[trigger] on_event_results(s, regs)[i]) by {
            if i > 0 {
                assert(on_event_results(s, regs)[i] == on_event_results(
                    OnEvent::stepped(s, 0, regs[0]),
                    regs.drop_first(),
                )[i - 1]);
            }
        }
    }
}

} // verus!
