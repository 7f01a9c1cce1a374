use vstd::prelude::*;

use crate::hub::{Hub, published};
use crate::sample::{Sample, SampleView};

verus! {

/// The producer's fixed parameters: the number of logical cores, which
/// stays the same for the life of the process, and the pause between two
/// samples in milliseconds.
pub struct Sampler {
    cores: usize,
    period_ms: u64,
}

impl Sampler {
    /// A sampler for `cores` logical cores. The requested period is raised
    /// to `floor_ms`, the metrics source's minimum refresh interval, since
    /// sampling faster only repeats stale readings.
    pub fn new(cores: usize, requested_ms: u64, floor_ms: u64) -> (r: Sampler)
        ensures
            r.cores() == cores,
            r.period_ms() == if requested_ms < floor_ms {
                floor_ms
            } else {
                requested_ms
            },
    {
        let period_ms = if requested_ms < floor_ms {
            floor_ms
        } else {
            requested_ms
        };
        Sampler { cores, period_ms }
    }

    pub closed spec fn cores(&self) -> nat {
        self.cores as nat
    }

    pub closed spec fn period_ms(&self) -> nat {
        self.period_ms as nat
    }

    pub fn core_count(&self) -> (r: usize)
        ensures
            r == self.cores(),
    {
        self.cores
    }

    pub fn period(&self) -> (r: u64)
        ensures
            r == self.period_ms(),
    {
        self.period_ms
    }

    /// One iteration of the producer, after the metrics were refreshed:
    /// builds a sample from the readings and publishes it to the hub. A
    /// reading with another number of cores, or with more memory in use than
    /// installed, is skipped and the hub left as it was; the next tick tries
    /// again. Returns whether a sample was published.
    pub fn tick(&self, hub: &mut Hub, cpus: Vec<u32>, memory_used: u64, memory_total: u64) -> (r:
        bool)
        requires
            old(hub).wf(),
        ensures
            final(hub).wf(),
            r <==> cpus@.len() == self.cores() && memory_used <= memory_total,
            r ==> final(hub)@ == published(
                old(hub)@,
                (SampleView {
                    cpus: cpus@,
                    memory_used: memory_used as nat,
                    memory_total: memory_total as nat,
                }),
            ),
            !r ==> final(hub)@ == old(hub)@,
            final(hub).handles_left() == old(hub).handles_left(),
    {
        if cpus.len() != self.cores {
            return false;
        }
        match Sample::new(cpus, memory_used, memory_total) {
            Some(sample) => {
                hub.publish(&sample);
                true
            },
            None => false,
        }
    }
}

} // verus!
