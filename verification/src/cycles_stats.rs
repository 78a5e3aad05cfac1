//! Timing records: a label with the processor's cycle counter at that point.
use vstd::prelude::*;

verus! {

/// A cycle count taken at a labelled point of the program.
pub struct CyclesStat {
    pub cycles: u64,
    pub label: String,
}

impl CyclesStat {
    /// A record of `cycles` under `label`.
    pub fn new(label: &str, cycles: u64) -> (s: Self)
        ensures
            s.label@ == label@,
            s.cycles == cycles,
    {
        CyclesStat { label: String::from_str(label), cycles }
    }
}

} // verus!
