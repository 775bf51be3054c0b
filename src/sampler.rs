//! The sampler: holds the previous tick's counters and timestamp and turns
//! each new reading into a snapshot.

use vstd::prelude::*;
use crate::model::{
    assemble_snapshot, rate_view, rates_view, InterfaceCounters, InterfaceRate, Reading, Snapshot,
};
use crate::process::{count_processes, counts_of};
use crate::rate::{
    counter_delta, delta_spec, elapsed_nanos, elapsed_spec, lemma_rate_exact, rate_per_second,
    rate_spec, MIN_ELAPSED_NANOS, NANOS_PER_SEC,
};

verus! {

/// The counters the baseline holds for `name`: those of its last entry with
/// that name, if any.
pub open spec fn find_counters(baseline: Seq<InterfaceCounters>, name: Seq<char>) -> Option<
    (u64, u64),
>
    decreases baseline.len(),
{
    if baseline.len() == 0 {
        None
    } else if baseline.last().name@ == name {
        Some((baseline.last().received, baseline.last().transmitted))
    } else {
        find_counters(baseline.drop_last(), name)
    }
}

/// The rate entry of `current` against baseline counters `(rx, tx)`.
pub open spec fn rate_entry(current: InterfaceCounters, base: (u64, u64), elapsed: nat) -> (
    Seq<char>,
    nat,
    nat,
) {
    (
        current.name@,
        rate_spec(delta_spec(base.0, current.received), elapsed),
        rate_spec(delta_spec(base.1, current.transmitted), elapsed),
    )
}

/// The network map of a tick: one entry for each current interface that the
/// baseline also holds, in the order of the current reading. Interfaces new
/// since the baseline are left out.
pub open spec fn network_rates_spec(
    baseline: Seq<InterfaceCounters>,
    current: Seq<InterfaceCounters>,
    elapsed: nat,
) -> Seq<(Seq<char>, nat, nat)>
    decreases current.len(),
{
    if current.len() == 0 {
        Seq::empty()
    } else {
        let earlier = network_rates_spec(baseline, current.drop_last(), elapsed);
        match find_counters(baseline, current.last().name@) {
            Some(base) => earlier.push(rate_entry(current.last(), base, elapsed)),
            None => earlier,
        }
    }
}

/// No two entries of a reading name the same interface.
pub open spec fn names_unique(s: Seq<InterfaceCounters>) -> bool {
    forall|a: int, b: int| 0 <= a < b < s.len() ==> s[a].name@ != s[b].name@
}

/// With unique names, the baseline counters of an interface are those of its entry.
pub proof fn lemma_find_present(baseline: Seq<InterfaceCounters>, k: int)
    requires
        names_unique(baseline),
        0 <= k < baseline.len(),
    ensures
        find_counters(baseline, baseline[k].name@) == Some(
            (baseline[k].received, baseline[k].transmitted),
        ),
    decreases baseline.len(),
{
    if k < baseline.len() - 1 {
        let rest = baseline.drop_last();
        assert(rest[k] == baseline[k]);
        lemma_find_present(rest, k);
    }
}

/// An interface that no entry names has no baseline counters.
pub proof fn lemma_find_absent(baseline: Seq<InterfaceCounters>, name: Seq<char>)
    requires
        forall|k: int| 0 <= k < baseline.len() ==> baseline[k].name@ != name,
    ensures
        find_counters(baseline, name) is None,
    decreases baseline.len(),
{
    if baseline.len() > 0 {
        let rest = baseline.drop_last();
        assert forall|k: int| 0 <= k < rest.len() implies rest[k].name@ != name by {
            assert(rest[k] == baseline[k]);
        }
        lemma_find_absent(rest, name);
    }
}

/// Every current interface with baseline counters has its rate entry in the
/// network map.
pub proof fn lemma_rates_include(
    baseline: Seq<InterfaceCounters>,
    current: Seq<InterfaceCounters>,
    elapsed: nat,
    i: int,
    base: (u64, u64),
)
    requires
        0 <= i < current.len(),
        find_counters(baseline, current[i].name@) == Some(base),
    ensures
        network_rates_spec(baseline, current, elapsed).contains(
            rate_entry(current[i], base, elapsed),
        ),
    decreases current.len(),
{
    let rates = network_rates_spec(baseline, current, elapsed);
    let earlier = network_rates_spec(baseline, current.drop_last(), elapsed);
    let x = rate_entry(current[i], base, elapsed);
    if i == current.len() - 1 {
        assert(rates == earlier.push(x));
        assert(rates[earlier.len() as int] == x);
    } else {
        assert(current.drop_last()[i] == current[i]);
        lemma_rates_include(baseline, current.drop_last(), elapsed, i, base);
        let j = choose|j: int| 0 <= j < earlier.len() && earlier[j] == x;
        assert(rates[j] == x);
    }
}

/// An interface without baseline counters has no entry in the network map.
pub proof fn lemma_rates_exclude(
    baseline: Seq<InterfaceCounters>,
    current: Seq<InterfaceCounters>,
    elapsed: nat,
    name: Seq<char>,
)
    requires
        find_counters(baseline, name) is None,
    ensures
        forall|j: int|
            0 <= j < network_rates_spec(baseline, current, elapsed).len()
                ==> network_rates_spec(baseline, current, elapsed)[j].0 != name,
    decreases current.len(),
{
    if current.len() > 0 {
        lemma_rates_exclude(baseline, current.drop_last(), elapsed, name);
        let earlier = network_rates_spec(baseline, current.drop_last(), elapsed);
        let rates = network_rates_spec(baseline, current, elapsed);
        match find_counters(baseline, current.last().name@) {
            Some(base) => {
                assert(current.last().name@ != name);
                assert forall|j: int| 0 <= j < rates.len() implies rates[j].0 != name by {
                    if j < earlier.len() {
                        assert(rates[j] == earlier[j]);
                    }
                }
            },
            None => {},
        }
    }
}

/// Over at least the minimum elapsed time, the rate reported for an
/// interface whose counters did not go down is the counter delta over the
/// elapsed seconds, rounded toward zero, as long as it fits in `u64`.
pub proof fn law_rate_is_delta_over_elapsed(
    baseline: Seq<InterfaceCounters>,
    current: Seq<InterfaceCounters>,
    elapsed: nat,
    i: int,
    k: int,
)
    requires
        names_unique(baseline),
        0 <= i < current.len(),
        0 <= k < baseline.len(),
        baseline[k].name@ == current[i].name@,
        baseline[k].received <= current[i].received,
        baseline[k].transmitted <= current[i].transmitted,
        elapsed >= MIN_ELAPSED_NANOS,
        ((current[i].received - baseline[k].received) as nat) * (NANOS_PER_SEC as nat) / elapsed
            <= u64::MAX,
        ((current[i].transmitted - baseline[k].transmitted) as nat) * (NANOS_PER_SEC as nat) / elapsed
            <= u64::MAX,
    ensures
        network_rates_spec(baseline, current, elapsed).contains(
            (
                current[i].name@,
                ((current[i].received - baseline[k].received) as nat) * (NANOS_PER_SEC as nat) / elapsed,
                ((current[i].transmitted - baseline[k].transmitted) as nat) * (NANOS_PER_SEC as nat)
                    / elapsed,
            ),
        ),
{
    let base = (baseline[k].received, baseline[k].transmitted);
    lemma_find_present(baseline, k);
    lemma_rates_include(baseline, current, elapsed, i, base);
    lemma_rate_exact((current[i].received - baseline[k].received) as nat, elapsed);
    lemma_rate_exact((current[i].transmitted - baseline[k].transmitted) as nat, elapsed);
}

/// `initialize` gives no snapshot, so the first snapshot is that of the first
/// tick; it already holds, for each interface of the initial reading that is
/// still present, its rate against the initial counters over the time
/// between the two readings.
pub proof fn law_first_snapshot_has_rates(
    initial: Seq<InterfaceCounters>,
    initial_time: u64,
    first: Seq<InterfaceCounters>,
    first_time: u64,
    i: int,
    k: int,
)
    requires
        names_unique(initial),
        0 <= i < first.len(),
        0 <= k < initial.len(),
        initial[k].name@ == first[i].name@,
    ensures
        network_rates_spec(initial, first, elapsed_spec(initial_time, first_time)).contains(
            rate_entry(
                first[i],
                (initial[k].received, initial[k].transmitted),
                elapsed_spec(initial_time, first_time),
            ),
        ),
{
    lemma_find_present(initial, k);
    lemma_rates_include(
        initial,
        first,
        elapsed_spec(initial_time, first_time),
        i,
        (initial[k].received, initial[k].transmitted),
    );
}

/// An interface absent from the baseline is left out of the tick on which it
/// appears; on the next tick, if still present, it is reported with its rate
/// against the counters of the tick on which it appeared.
pub proof fn law_new_interface_waits_one_tick(
    baseline: Seq<InterfaceCounters>,
    appeared: Seq<InterfaceCounters>,
    next: Seq<InterfaceCounters>,
    elapsed_first: nat,
    elapsed_next: nat,
    i: int,
    j: int,
)
    requires
        names_unique(appeared),
        0 <= i < appeared.len(),
        0 <= j < next.len(),
        next[j].name@ == appeared[i].name@,
        forall|k: int| 0 <= k < baseline.len() ==> baseline[k].name@ != appeared[i].name@,
    ensures
        forall|e: int|
            0 <= e < network_rates_spec(baseline, appeared, elapsed_first).len()
                ==> network_rates_spec(baseline, appeared, elapsed_first)[e].0
                != appeared[i].name@,
        network_rates_spec(appeared, next, elapsed_next).contains(
            rate_entry(next[j], (appeared[i].received, appeared[i].transmitted), elapsed_next),
        ),
{
    lemma_find_absent(baseline, appeared[i].name@);
    lemma_rates_exclude(baseline, appeared, elapsed_first, appeared[i].name@);
    lemma_find_present(appeared, i);
    lemma_rates_include(
        appeared,
        next,
        elapsed_next,
        j,
        (appeared[i].received, appeared[i].transmitted),
    );
}

/// Looks up the baseline counters of the interface `name`.
pub fn lookup_counters(baseline: &Vec<InterfaceCounters>, name: &String) -> (r: Option<(u64, u64)>)
    ensures
        r == find_counters(baseline@, name@),
{
    let mut j: usize = baseline.len();
    assert(baseline@.take(j as int) =~= baseline@);
    while j > 0
        invariant
            j <= baseline@.len(),
            find_counters(baseline@.take(j as int), name@) == find_counters(baseline@, name@),
        decreases j,
    {
        let ghost prefix = baseline@.take(j as int);
        assert(prefix.drop_last() =~= baseline@.take(j - 1));
        assert(prefix.last() == baseline@[j - 1]);
        let entry = &baseline[j - 1];
        if entry.name == *name {
            return Some((entry.received, entry.transmitted));
        }
        j = j - 1;
    }
    assert(baseline@.take(0) =~= Seq::<InterfaceCounters>::empty());
    None
}

/// Rates of every current interface against the baseline, over `elapsed`
/// nanoseconds.
pub fn network_rates(
    baseline: &Vec<InterfaceCounters>,
    current: &Vec<InterfaceCounters>,
    elapsed: u64,
) -> (r: Vec<InterfaceRate>)
    ensures
        rates_view(r@) == network_rates_spec(baseline@, current@, elapsed as nat),
{
    let mut out: Vec<InterfaceRate> = Vec::new();
    let mut i: usize = 0;
    assert(current@.take(0) =~= Seq::<InterfaceCounters>::empty());
    assert(rates_view(out@) =~= Seq::<(Seq<char>, nat, nat)>::empty());
    while i < current.len()
        invariant
            i <= current@.len(),
            rates_view(out@) == network_rates_spec(
                baseline@,
                current@.take(i as int),
                elapsed as nat,
            ),
        decreases current@.len() - i,
    {
        let ghost before = out@;
        let c = &current[i];
        assert(current@.take(i + 1).drop_last() =~= current@.take(i as int));
        assert(current@.take(i + 1).last() == current@[i as int]);
        match lookup_counters(baseline, &c.name) {
            Some((rx, tx)) => {
                let entry = InterfaceRate {
                    name: c.name.clone(),
                    rx: rate_per_second(counter_delta(rx, c.received), elapsed),
                    tx: rate_per_second(counter_delta(tx, c.transmitted), elapsed),
                };
                out.push(entry);
                assert(rates_view(out@) =~= rates_view(before).push(rate_view(entry)));
            },
            None => {},
        }
        i = i + 1;
    }
    assert(current@.take(i as int) =~= current@);
    out
}

/// The monitor's state between ticks: the interface counters and the
/// timestamp of the last reading. Both are replaced together on each tick.
pub struct Sampler {
    baseline: Vec<InterfaceCounters>,
    last_timestamp_nanos: u64,
}

impl Sampler {
    /// The interface counters of the last reading.
    pub closed spec fn baseline(&self) -> Seq<InterfaceCounters> {
        self.baseline@
    }

    /// The timestamp of the last reading, in nanoseconds.
    pub closed spec fn last_timestamp(&self) -> u64 {
        self.last_timestamp_nanos
    }

    /// Takes the first reading's counters and timestamp as the baseline.
    /// No snapshot comes of it: a rate needs two readings.
    pub fn initialize(interfaces: Vec<InterfaceCounters>, timestamp_nanos: u64) -> (s: Sampler)
        ensures
            s.baseline() == interfaces@,
            s.last_timestamp() == timestamp_nanos,
    {
        Sampler { baseline: interfaces, last_timestamp_nanos: timestamp_nanos }
    }

    /// Turns a new reading into a snapshot and makes it the baseline.
    pub fn tick<C>(&mut self, reading: Reading<C>) -> (snap: Snapshot<C>)
        ensures
            snap.cpu@ == reading.cpu@,
            snap.memory == reading.memory,
            snap.swap == reading.swap,
            reading.memory.well_formed() ==> snap.memory.well_formed(),
            reading.swap.well_formed() ==> snap.swap.well_formed(),
            rates_view(snap.network@) == network_rates_spec(
                old(self).baseline(),
                reading.interfaces@,
                elapsed_spec(old(self).last_timestamp(), reading.timestamp_nanos),
            ),
            counts_of(snap.processes, reading.processes@),
            snap.processes.total >= snap.processes.running + snap.processes.sleeping
                + snap.processes.zombie,
            final(self).baseline() == reading.interfaces@,
            final(self).last_timestamp() == reading.timestamp_nanos,
    {
        let Reading { cpu, memory, swap, interfaces, processes, timestamp_nanos } = reading;
        let elapsed = elapsed_nanos(self.last_timestamp_nanos, timestamp_nanos);
        let network = network_rates(&self.baseline, &interfaces, elapsed);
        self.baseline = interfaces;
        self.last_timestamp_nanos = timestamp_nanos;
        let counts = count_processes(&processes);
        assemble_snapshot(cpu, memory, swap, network, counts)
    }
}

} // verus!
