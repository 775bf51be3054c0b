//! Process counts by status.

use vstd::prelude::*;
use crate::model::{ProcessState, ProcessStats};

verus! {

/// How many entries of `s` are `k`.
pub open spec fn count_state(s: Seq<ProcessState>, k: ProcessState) -> nat
    decreases s.len(),
{
    if s.len() == 0 {
        0
    } else {
        count_state(s.drop_last(), k) + if s.last() == k {
            1nat
        } else {
            0nat
        }
    }
}

/// `p` counts the processes of `s`: all of them in `total`, and those
/// running, sleeping and zombie in the three classes.
pub open spec fn counts_of(p: ProcessStats, s: Seq<ProcessState>) -> bool {
    &&& p.total == s.len()
    &&& p.running == count_state(s, ProcessState::Running)
    &&& p.sleeping == count_state(s, ProcessState::Sleeping)
    &&& p.zombie == count_state(s, ProcessState::Zombie)
}

/// The four classes together hold every process once.
pub proof fn lemma_classes_partition(s: Seq<ProcessState>)
    ensures
        count_state(s, ProcessState::Running) + count_state(s, ProcessState::Sleeping)
            + count_state(s, ProcessState::Zombie) + count_state(s, ProcessState::Other) == s.len(),
    decreases s.len(),
{
    if s.len() > 0 {
        lemma_classes_partition(s.drop_last());
    }
}

/// The total is at least the running, sleeping and zombie processes together,
/// and equal to them exactly when no process has another status.
pub proof fn lemma_total_bounds_classes(p: ProcessStats, s: Seq<ProcessState>)
    requires
        counts_of(p, s),
    ensures
        p.total >= p.running + p.sleeping + p.zombie,
        p.total == p.running + p.sleeping + p.zombie <==> count_state(
            s,
            ProcessState::Other,
        ) == 0,
{
    lemma_classes_partition(s);
}

/// Counts the processes of `statuses` by class.
pub fn count_processes(statuses: &Vec<ProcessState>) -> (r: ProcessStats)
    ensures
        counts_of(r, statuses@),
        r.total >= r.running + r.sleeping + r.zombie,
        r.total == r.running + r.sleeping + r.zombie <==> count_state(
            statuses@,
            ProcessState::Other,
        ) == 0,
{
    let mut running: usize = 0;
    let mut sleeping: usize = 0;
    let mut zombie: usize = 0;
    let mut i: usize = 0;
    while i < statuses.len()
        invariant
            i <= statuses@.len(),
            running == count_state(statuses@.take(i as int), ProcessState::Running),
            sleeping == count_state(statuses@.take(i as int), ProcessState::Sleeping),
            zombie == count_state(statuses@.take(i as int), ProcessState::Zombie),
            running + sleeping + zombie <= i,
        decreases statuses@.len() - i,
    {
        let ghost prefix = statuses@.take(i + 1);
        assert(prefix.drop_last() =~= statuses@.take(i as int));
        assert(prefix.last() == statuses@[i as int]);
        match statuses[i] {
            ProcessState::Running => running = running + 1,
            ProcessState::Sleeping => sleeping = sleeping + 1,
            ProcessState::Zombie => zombie = zombie + 1,
            ProcessState::Other => {},
        }
        i = i + 1;
    }
    assert(statuses@.take(i as int) =~= statuses@);
    let r = ProcessStats { total: statuses.len(), running, sleeping, zombie };
    proof {
        lemma_total_bounds_classes(r, statuses@);
    }
    r
}

} // verus!
