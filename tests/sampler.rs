use sysmon::model::{
    assemble_snapshot, InterfaceCounters, InterfaceRate, MemoryStats, ProcessState, ProcessStats,
    Reading,
};
use sysmon::process::count_processes;
use sysmon::rate::{counter_delta, elapsed_nanos, rate_per_second, MIN_ELAPSED_NANOS};
use sysmon::sampler::{lookup_counters, network_rates, Sampler};

const SECOND: u64 = 1_000_000_000;

fn iface(name: &str, received: u64, transmitted: u64) -> InterfaceCounters {
    InterfaceCounters { name: name.to_string(), received, transmitted }
}

fn reading(interfaces: Vec<InterfaceCounters>, timestamp_nanos: u64) -> Reading<f32> {
    Reading {
        cpu: vec![12.5, 80.0],
        memory: MemoryStats { total: 8000, used: 3000 },
        swap: MemoryStats { total: 2000, used: 0 },
        interfaces,
        processes: vec![ProcessState::Running, ProcessState::Sleeping],
        timestamp_nanos,
    }
}

fn rate_of(network: &[InterfaceRate], name: &str) -> Option<(u64, u64)> {
    network.iter().find(|r| r.name == name).map(|r| (r.rx, r.tx))
}

#[test]
fn rates_over_two_seconds() {
    let mut s = Sampler::initialize(vec![iface("eth0", 1000, 2000)], 0);
    let snap = s.tick(reading(vec![iface("eth0", 1500, 2200)], 2 * SECOND));
    assert_eq!(snap.network.len(), 1);
    assert_eq!(rate_of(&snap.network, "eth0"), Some((250, 100)));
}

#[test]
fn first_snapshot_has_real_rates() {
    let mut s = Sampler::initialize(vec![iface("eth0", 0, 0), iface("lo", 10, 10)], 100);
    let snap = s.tick(reading(vec![iface("eth0", 4000, 1000), iface("lo", 10, 30)], 100 + SECOND));
    assert_eq!(rate_of(&snap.network, "eth0"), Some((4000, 1000)));
    assert_eq!(rate_of(&snap.network, "lo"), Some((0, 20)));
}

#[test]
fn new_interface_appears_one_tick_later() {
    let mut s = Sampler::initialize(vec![], 0);
    let first = s.tick(reading(vec![iface("eth0", 500, 500)], SECOND));
    assert!(first.network.is_empty());
    let second = s.tick(reading(vec![iface("eth0", 1500, 1000)], 2 * SECOND));
    assert_eq!(rate_of(&second.network, "eth0"), Some((1000, 500)));
}

#[test]
fn vanished_interface_is_dropped() {
    let mut s = Sampler::initialize(vec![iface("eth0", 0, 0), iface("wlan0", 0, 0)], 0);
    let first = s.tick(reading(vec![iface("eth0", 100, 100)], SECOND));
    assert_eq!(first.network.len(), 1);
    assert_eq!(rate_of(&first.network, "wlan0"), None);
    let second = s.tick(reading(vec![iface("eth0", 100, 100), iface("wlan0", 50, 50)], 2 * SECOND));
    assert_eq!(rate_of(&second.network, "wlan0"), None);
    assert_eq!(rate_of(&second.network, "eth0"), Some((0, 0)));
}

#[test]
fn zero_elapsed_uses_minimum() {
    let mut s = Sampler::initialize(vec![iface("eth0", 0, 0)], 5 * SECOND);
    let snap = s.tick(reading(vec![iface("eth0", 1000, 0)], 5 * SECOND));
    assert_eq!(rate_of(&snap.network, "eth0"), Some((1_000_000, 0)));
}

#[test]
fn clock_going_back_uses_minimum() {
    let mut s = Sampler::initialize(vec![iface("eth0", 0, 0)], 5 * SECOND);
    let snap = s.tick(reading(vec![iface("eth0", 7, 3)], 4 * SECOND));
    assert_eq!(rate_of(&snap.network, "eth0"), Some((7000, 3000)));
}

#[test]
fn huge_rate_saturates() {
    assert_eq!(rate_per_second(u64::MAX, 0), u64::MAX);
    assert_eq!(rate_per_second(u64::MAX, MIN_ELAPSED_NANOS), u64::MAX);
    assert_eq!(rate_per_second(u64::MAX, 1_000_000 * SECOND), 18_446_744_073_709);
}

#[test]
fn counter_decrease_counts_as_zero() {
    let mut s = Sampler::initialize(vec![iface("eth0", 5000, 5000)], 0);
    let first = s.tick(reading(vec![iface("eth0", 100, 6000)], SECOND));
    assert_eq!(rate_of(&first.network, "eth0"), Some((0, 1000)));
    let second = s.tick(reading(vec![iface("eth0", 300, 6000)], 2 * SECOND));
    assert_eq!(rate_of(&second.network, "eth0"), Some((200, 0)));
}

#[test]
fn rate_rounds_toward_zero() {
    assert_eq!(rate_per_second(10, 3 * SECOND), 3);
    assert_eq!(rate_per_second(1000, 1_500_000_000), 666);
    assert_eq!(rate_per_second(1, 2 * MIN_ELAPSED_NANOS), 500);
}

#[test]
fn delta_and_elapsed() {
    assert_eq!(counter_delta(10, 25), 15);
    assert_eq!(counter_delta(25, 10), 0);
    assert_eq!(elapsed_nanos(3, 10), 7);
    assert_eq!(elapsed_nanos(10, 3), 0);
}

#[test]
fn tick_passes_through_instant_values() {
    let mut s = Sampler::initialize(vec![], 0);
    let snap = s.tick(reading(vec![], SECOND));
    assert_eq!(snap.cpu, vec![12.5f32, 80.0]);
    assert_eq!(snap.memory, MemoryStats { total: 8000, used: 3000 });
    assert_eq!(snap.swap, MemoryStats { total: 2000, used: 0 });
    assert!(snap.memory.used <= snap.memory.total);
    assert!(snap.swap.used <= snap.swap.total);
    assert_eq!(snap.processes, ProcessStats { total: 2, running: 1, sleeping: 1, zombie: 0 });
}

#[test]
fn process_counts_with_other_status() {
    let p = count_processes(&vec![
        ProcessState::Running,
        ProcessState::Sleeping,
        ProcessState::Zombie,
        ProcessState::Other,
        ProcessState::Running,
    ]);
    assert_eq!(p, ProcessStats { total: 5, running: 2, sleeping: 1, zombie: 1 });
    assert!(p.total > p.running + p.sleeping + p.zombie);
}

#[test]
fn process_counts_without_other_status() {
    let p = count_processes(&vec![ProcessState::Zombie, ProcessState::Sleeping]);
    assert_eq!(p, ProcessStats { total: 2, running: 0, sleeping: 1, zombie: 1 });
    assert_eq!(p.total, p.running + p.sleeping + p.zombie);
    let empty = count_processes(&vec![]);
    assert_eq!(empty, ProcessStats { total: 0, running: 0, sleeping: 0, zombie: 0 });
}

#[test]
fn lookup_finds_counters() {
    let base = vec![iface("eth0", 1, 2), iface("lo", 3, 4)];
    assert_eq!(lookup_counters(&base, &"lo".to_string()), Some((3, 4)));
    assert_eq!(lookup_counters(&base, &"wlan0".to_string()), None);
}

#[test]
fn network_rates_keep_current_order() {
    let base = vec![iface("a", 0, 0), iface("b", 0, 0)];
    let cur = vec![iface("b", 2000, 0), iface("c", 5, 5), iface("a", 0, 4000)];
    let r = network_rates(&base, &cur, 2 * SECOND);
    let names: Vec<&str> = r.iter().map(|x| x.name.as_str()).collect();
    assert_eq!(names, vec!["b", "a"]);
    assert_eq!((r[0].rx, r[0].tx), (1000, 0));
    assert_eq!((r[1].rx, r[1].tx), (0, 2000));
}

#[test]
fn assemble_keeps_parts() {
    let net = vec![InterfaceRate { name: "eth0".to_string(), rx: 1, tx: 2 }];
    let procs = ProcessStats { total: 3, running: 1, sleeping: 1, zombie: 0 };
    let snap = assemble_snapshot(
        vec![1.0f32],
        MemoryStats { total: 10, used: 5 },
        MemoryStats { total: 0, used: 0 },
        net.clone(),
        procs,
    );
    assert_eq!(snap.cpu, vec![1.0f32]);
    assert_eq!(snap.network, net);
    assert_eq!(snap.processes, procs);
    assert_eq!(snap.memory, MemoryStats { total: 10, used: 5 });
}
