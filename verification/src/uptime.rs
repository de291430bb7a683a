//! The uptime ticker: one tick a second, each of which counts one second of
//! uptime. The caller owns the clock and the task that waits between ticks;
//! a tick itself cannot fail.

use vstd::prelude::*;
use crate::metrics::HttpMetrics;
use crate::registry::{
    count_of, counts_at, held, incremented, lemma_definition_kept, lemma_incremented, registry_wf,
    sat_add, Handle, MetricRegistry, MetricView,
};

verus! {

/// The time between two ticks, in milliseconds.
pub const TICK_MILLIS: u64 = 1000;

/// The registry after `ticks` ticks on the counter at `index`.
pub open spec fn ticked(metrics: Seq<MetricView>, index: int, ticks: nat) -> Seq<MetricView>
    decreases ticks,
{
    if ticks == 0 {
        metrics
    } else {
        incremented(ticked(metrics, index, (ticks - 1) as nat), index, Seq::<Seq<char>>::empty())
    }
}

/// The ticker of the uptime counter.
#[derive(Debug, Clone, Copy)]
pub struct UptimeTicker {
    counter: Handle,
    ticks: u64,
}

impl UptimeTicker {
    /// The handle of the counter that the ticker feeds.
    pub closed spec fn counter(&self) -> Handle {
        self.counter
    }

    /// The ticks so far, held to what a `u64` can store.
    pub closed spec fn spec_ticks(&self) -> u64 {
        self.ticks
    }

    /// A ticker for the uptime counter of `handles` that has not ticked yet.
    pub fn new(handles: &HttpMetrics) -> (ticker: UptimeTicker)
        ensures
            ticker.counter() == handles.uptime,
            ticker.ticks() == 0,
    {
        UptimeTicker { counter: handles.uptime, ticks: 0 }
    }

    /// The ticks so far.
    #[verifier::when_used_as_spec(spec_ticks)]
    pub fn ticks(&self) -> (ticks: u64)
        ensures
            ticks == self.ticks(),
    {
        self.ticks
    }

    /// The time to wait before the next tick, in milliseconds.
    pub fn interval_millis(&self) -> (millis: u64)
        ensures
            millis == TICK_MILLIS,
    {
        TICK_MILLIS
    }

    /// One tick: the uptime counter goes up by one.
    pub fn tick(&mut self, registry: &mut MetricRegistry)
        ensures
            final(self).counter() == old(self).counter(),
            final(self).ticks() == sat_add(old(self).ticks(), 1),
            final(registry)@ == ticked(old(registry)@, old(self).counter().index() as int, 1),
    {
        let no_labels: Vec<String> = Vec::new();
        assert(no_labels.deep_view() =~= Seq::<Seq<char>>::empty());
        registry.increment(self.counter, &no_labels);
        self.ticks = self.ticks.saturating_add(1);
        assert(ticked(old(registry)@, old(self).counter().index() as int, 0) == old(registry)@);
    }
}

/// After `ticks` ticks a counter without labels stands `ticks` higher than
/// before, held to what a `u64` can store: no tick is lost and none counts
/// twice.
pub proof fn lemma_uptime_after_ticks(metrics: Seq<MetricView>, index: int, ticks: nat)
    requires
        registry_wf(metrics),
        0 <= index < metrics.len(),
        counts_at(metrics, index, Seq::<Seq<char>>::empty()),
    ensures
        registry_wf(ticked(metrics, index, ticks)),
        ticked(metrics, index, ticks).len() == metrics.len(),
        counts_at(ticked(metrics, index, ticks), index, Seq::<Seq<char>>::empty()),
        count_of(ticked(metrics, index, ticks), index, Seq::<Seq<char>>::empty()) == held(
            count_of(metrics, index, Seq::<Seq<char>>::empty()) as nat + ticks,
        ),
    decreases ticks,
{
    if ticks > 0 {
        let before = ticked(metrics, index, (ticks - 1) as nat);
        let none = Seq::<Seq<char>>::empty();
        lemma_uptime_after_ticks(metrics, index, (ticks - 1) as nat);
        lemma_incremented(before, index, none, index, none);
        lemma_definition_kept(before[index], before[index].series_for(none).bumped());
    }
}

} // verus!
