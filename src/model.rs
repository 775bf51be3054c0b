//! Plain values exchanged with the metrics source and handed to reporters.

use vstd::prelude::*;

verus! {

/// Total and used bytes of memory or swap.
#[derive(Clone, Copy, Debug, PartialEq, Eq, Structural)]
pub struct MemoryStats {
    pub total: u64,
    pub used: u64,
}

impl MemoryStats {
    /// What the metrics source promises of every reading.
    pub open spec fn well_formed(&self) -> bool {
        self.used <= self.total
    }
}

/// Cumulative byte counters of one network interface, as the source reports them.
#[derive(Clone, Debug, PartialEq, Eq)]
pub struct InterfaceCounters {
    pub name: String,
    pub received: u64,
    pub transmitted: u64,
}

/// Receive and transmit rates of one interface, in bytes per second.
#[derive(Clone, Debug, PartialEq, Eq)]
pub struct InterfaceRate {
    pub name: String,
    pub rx: u64,
    pub tx: u64,
}

/// The status the source reports for a process, reduced to the classes counted.
#[derive(Clone, Copy, Debug, PartialEq, Eq, Structural)]
pub enum ProcessState {
    Running,
    Sleeping,
    Zombie,
    Other,
}

/// Process counts of one tick.
#[derive(Clone, Copy, Debug, PartialEq, Eq, Structural)]
pub struct ProcessStats {
    pub total: usize,
    pub running: usize,
    pub sleeping: usize,
    pub zombie: usize,
}

/// One full refresh of the metrics source, taken at `timestamp_nanos`
/// (nanoseconds on a monotonic clock). `C` is the per-core CPU reading,
/// which is passed through untouched.
pub struct Reading<C> {
    pub cpu: Vec<C>,
    pub memory: MemoryStats,
    pub swap: MemoryStats,
    pub interfaces: Vec<InterfaceCounters>,
    pub processes: Vec<ProcessState>,
    pub timestamp_nanos: u64,
}

/// The result of one tick.
pub struct Snapshot<C> {
    pub cpu: Vec<C>,
    pub memory: MemoryStats,
    pub swap: MemoryStats,
    pub network: Vec<InterfaceRate>,
    pub processes: ProcessStats,
}

/// A rate entry as a mathematical value: interface name, rx, tx.
pub open spec fn rate_view(r: InterfaceRate) -> (Seq<char>, nat, nat) {
    (r.name@, r.rx as nat, r.tx as nat)
}

pub open spec fn rates_view(s: Seq<InterfaceRate>) -> Seq<(Seq<char>, nat, nat)> {
    s.map_values(|r: InterfaceRate| rate_view(r))
}

/// Builds a snapshot from the five results of a tick.
pub fn assemble_snapshot<C>(
    cpu: Vec<C>,
    memory: MemoryStats,
    swap: MemoryStats,
    network: Vec<InterfaceRate>,
    processes: ProcessStats,
) -> (s: Snapshot<C>)
    ensures
        s.cpu@ == cpu@,
        s.memory == memory,
        s.swap == swap,
        s.network@ == network@,
        s.processes == processes,
{
    Snapshot { cpu, memory, swap, network, processes }
}

} // verus!
