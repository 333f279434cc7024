//! What can be counted: the description of one countable event, and the
//! class that decides which events may share a group.

use vstd::prelude::*;

verus! {

/// Events counted by the processor under a portable name.
#[derive(Clone, Copy, Debug, PartialEq, Eq, Hash, Structural)]
pub enum HardwareEvent {
    CpuCycles,
    Instructions,
    CacheReferences,
    CacheMisses,
    BranchInstructions,
    BranchMisses,
    BusCycles,
    StalledCyclesFrontend,
    StalledCyclesBackend,
    RefCpuCycles,
}

/// Events counted by the kernel.
#[derive(Clone, Copy, Debug, PartialEq, Eq, Hash, Structural)]
pub enum SoftwareEvent {
    CpuClock,
    TaskClock,
    PageFaults,
    ContextSwitches,
    CpuMigrations,
    PageFaultsMin,
    PageFaultsMaj,
    AlignmentFaults,
    EmulationFaults,
    Dummy,
}

/// The cache that a cache event is about.
#[derive(Clone, Copy, Debug, PartialEq, Eq, Hash, Structural)]
pub enum WhichCache {
    L1d,
    L1i,
    LastLevel,
    DataTlb,
    InstructionTlb,
    BranchPrediction,
    Node,
}

/// The cache operation that is counted.
#[derive(Clone, Copy, Debug, PartialEq, Eq, Hash, Structural)]
pub enum CacheOp {
    Read,
    Write,
    Prefetch,
}

/// Whether every access is counted or only the misses.
#[derive(Clone, Copy, Debug, PartialEq, Eq, Hash, Structural)]
pub enum CacheResult {
    Access,
    Miss,
}

/// One countable event. It says what to count; it is not a live counter.
#[derive(Clone, Copy, Debug, PartialEq, Eq, Hash, Structural)]
pub enum CounterSpec {
    Hardware(HardwareEvent),
    Software(SoftwareEvent),
    Cache { which: WhichCache, operation: CacheOp, result: CacheResult },
    /// A vendor-defined event code, passed to the hardware as it is.
    Raw(u64),
}

/// Counters of one class can be sampled together; counters of different
/// classes cannot share a group.
#[derive(Clone, Copy, Debug, PartialEq, Eq, Hash, Structural)]
pub enum GroupClass {
    /// Named hardware, software and cache events.
    Primary,
    /// Raw event codes, which may conflict with cache events.
    Secondary,
}

impl CounterSpec {
    /// The class of this event.
    pub open spec fn class(self) -> GroupClass {
        match self {
            CounterSpec::Raw(_) => GroupClass::Secondary,
            _ => GroupClass::Primary,
        }
    }

    /// The class of this event.
    pub fn group_class(&self) -> (class: GroupClass)
        ensures
            class == self.class(),
    {
        match self {
            CounterSpec::Raw(_) => GroupClass::Secondary,
            _ => GroupClass::Primary,
        }
    }
}

} // verus!
