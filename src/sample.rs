use vstd::prelude::*;

verus! {

/// What a sample is, mathematically: per-core readings in core order, and
/// memory in use out of memory installed.
pub ghost struct SampleView {
    pub cpus: Seq<u32>,
    pub memory_used: nat,
    pub memory_total: nat,
}

/// One immutable snapshot of host load.
///
/// Each entry of `cpus` is the IEEE-754 single-precision bit pattern of one
/// logical core's usage in percent, in core order; the pattern keeps the
/// reading exactly as the metrics source gave it.
pub struct Sample {
    cpus: Vec<u32>,
    memory_used: u64,
    memory_total: u64,
}

impl View for Sample {
    type V = SampleView;

    closed spec fn view(&self) -> SampleView {
        SampleView {
            cpus: self.cpus@,
            memory_used: self.memory_used as nat,
            memory_total: self.memory_total as nat,
        }
    }
}

impl Sample {
    /// Memory in use never exceeds memory installed.
    pub open spec fn wf(&self) -> bool {
        self@.memory_used <= self@.memory_total
    }

    /// Builds a sample, or `None` when the memory figures are inconsistent
    /// (more in use than installed).
    pub fn new(cpus: Vec<u32>, memory_used: u64, memory_total: u64) -> (r: Option<Sample>)
        ensures
            r is Some <==> memory_used <= memory_total,
            r matches Some(s) ==> s.wf() && s@ == (SampleView {
                cpus: cpus@,
                memory_used: memory_used as nat,
                memory_total: memory_total as nat,
            }),
    {
        if memory_used <= memory_total {
            Some(Sample { cpus, memory_used, memory_total })
        } else {
            None
        }
    }

    pub fn cpus(&self) -> (r: &Vec<u32>)
        ensures
            r@ == self@.cpus,
    {
        &self.cpus
    }

    pub fn memory_used(&self) -> (r: u64)
        ensures
            r == self@.memory_used,
    {
        self.memory_used
    }

    pub fn memory_total(&self) -> (r: u64)
        ensures
            r == self@.memory_total,
    {
        self.memory_total
    }

    /// An equal, independent copy, as handed to each subscriber.
    pub fn duplicate(&self) -> (r: Sample)
        requires
            self.wf(),
        ensures
            r.wf(),
            r@ == self@,
    {
        let mut cpus: Vec<u32> = Vec::with_capacity(self.cpus.len());
        let mut i: usize = 0;
        while i < self.cpus.len()
            invariant
                i <= self.cpus@.len(),
                cpus@ == self.cpus@.subrange(0, i as int),
            decreases self.cpus@.len() - i,
        {
            cpus.push(self.cpus[i]);
            i = i + 1;
            proof {
                assert(cpus@ =~= self.cpus@.subrange(0, i as int));
            }
        }
        proof {
            assert(cpus@ =~= self.cpus@);
        }
        Sample { cpus, memory_used: self.memory_used, memory_total: self.memory_total }
    }
}

} // verus!
