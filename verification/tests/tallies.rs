use txingest_receiver::addr::{IpAddr, SocketAddr};
use txingest_receiver::connection::{Exceeds, Failures};
use txingest_receiver::log::{Line, LogLine};
use txingest_receiver::state::State;

const HOST: IpAddr = IpAddr::V4(0x0A000001);
const OTHER: IpAddr = IpAddr::V4(0x0A000002);

fn peer(ip: IpAddr) -> SocketAddr {
    SocketAddr::new(ip, 8001)
}

fn failures(state: &State, ip: IpAddr) -> Option<Failures> {
    state.failures.get(&ip).copied()
}

#[test]
fn first_failure_starts_the_count() {
    let mut state = State::new();
    let mut log: Vec<LogLine> = Vec::new();
    state.failed_at(5000, peer(HOST), &mut log);
    assert_eq!(log, vec![]);
    assert_eq!(
        failures(&state, HOST),
        Some(Failures { log_timestamp: 5000, changed: true, count: 1 })
    );
}

#[test]
fn failures_wait_for_a_second() {
    let mut state = State::new();
    let mut log: Vec<LogLine> = Vec::new();
    state.failed_at(5000, peer(HOST), &mut log);
    state.failed_at(5999, peer(HOST), &mut log);
    assert_eq!(log, vec![]);
    assert_eq!(
        failures(&state, HOST),
        Some(Failures { log_timestamp: 5000, changed: true, count: 2 })
    );
    state.failed_at(6000, peer(HOST), &mut log);
    assert_eq!(log, vec![Line::Failed { timestamp: 6000, host: HOST, count: 3 }]);
    assert_eq!(
        failures(&state, HOST),
        Some(Failures { log_timestamp: 6000, changed: false, count: 0 })
    );
}

#[test]
fn a_hundred_failures_do_not_wait() {
    let mut state = State::new();
    let mut log: Vec<LogLine> = Vec::new();
    for _ in 0..99 {
        state.failed_at(5000, peer(HOST), &mut log);
    }
    assert_eq!(log, vec![]);
    state.failed_at(5000, peer(HOST), &mut log);
    assert_eq!(log, vec![Line::Failed { timestamp: 5000, host: HOST, count: 100 }]);
    assert_eq!(
        failures(&state, HOST),
        Some(Failures { log_timestamp: 5000, changed: false, count: 0 })
    );
}

#[test]
fn failures_at_the_epoch_are_counted_without_end() {
    let mut state = State::new();
    let mut log: Vec<LogLine> = Vec::new();
    for _ in 0..150 {
        state.failed_at(0, peer(HOST), &mut log);
    }
    assert_eq!(log, vec![]);
    assert_eq!(
        failures(&state, HOST),
        Some(Failures { log_timestamp: 0, changed: true, count: 150 })
    );
}

#[test]
fn a_clock_that_goes_back_does_not_log_failures() {
    let mut state = State::new();
    let mut log: Vec<LogLine> = Vec::new();
    state.failed_at(5000, peer(HOST), &mut log);
    state.failed_at(100, peer(HOST), &mut log);
    assert_eq!(log, vec![]);
    assert_eq!(
        failures(&state, HOST),
        Some(Failures { log_timestamp: 5000, changed: true, count: 2 })
    );
}

#[test]
fn failures_of_hosts_are_counted_apart() {
    let mut state = State::new();
    let mut log: Vec<LogLine> = Vec::new();
    state.failed_at(5000, peer(HOST), &mut log);
    state.failed_at(5100, peer(OTHER), &mut log);
    state.failed_at(6050, SocketAddr::new(HOST, 9), &mut log);
    state.failed_at(6050, peer(OTHER), &mut log);
    assert_eq!(log, vec![Line::Failed { timestamp: 6050, host: HOST, count: 2 }]);
    assert_eq!(
        failures(&state, OTHER),
        Some(Failures { log_timestamp: 5100, changed: true, count: 2 })
    );
}

#[test]
fn failed_reads_the_clock() {
    let mut state = State::new();
    let mut log: Vec<LogLine> = Vec::new();
    assert_eq!(state.failed(7, peer(HOST), &mut log), Ok(()));
    assert_eq!(log, vec![]);
    let kept = failures(&state, HOST).unwrap();
    assert_eq!(kept.count, 1);
    // The clock shows a time well after the one that the event carries.
    assert!(kept.log_timestamp > 1_600_000_000_000);
}

#[test]
fn exceeds_keep_the_latest_stake() {
    let mut state = State::new();
    let mut log: Vec<LogLine> = Vec::new();
    state.exceeded_at(5000, peer(HOST), 10, &mut log);
    state.exceeded_at(5500, peer(HOST), 20, &mut log);
    assert_eq!(log, vec![]);
    assert_eq!(
        state.exceeds.get(&HOST).copied(),
        Some(Exceeds { log_timestamp: 5000, stake: 20, changed: true, count: 2 })
    );
    state.exceeded_at(6001, peer(HOST), 30, &mut log);
    assert_eq!(
        log,
        vec![Line::Exceeded { timestamp: 6001, host: HOST, stake: 30, count: 3 }]
    );
    assert_eq!(
        state.exceeds.get(&HOST).copied(),
        Some(Exceeds { log_timestamp: 6001, stake: 30, changed: false, count: 0 })
    );
}

#[test]
fn a_hundred_exceeds_do_not_wait() {
    let mut state = State::new();
    let mut log: Vec<LogLine> = Vec::new();
    for i in 0..100u64 {
        state.exceeded_at(5000, peer(HOST), i, &mut log);
    }
    assert_eq!(
        log,
        vec![Line::Exceeded { timestamp: 5000, host: HOST, stake: 99, count: 100 }]
    );
}

#[test]
fn exceeded_reads_the_clock() {
    let mut state = State::new();
    let mut log: Vec<LogLine> = Vec::new();
    assert_eq!(state.exceeded(7, peer(HOST), 3, &mut log), Ok(()));
    let kept = state.exceeds.get(&HOST).copied().unwrap();
    assert_eq!((kept.stake, kept.count, kept.changed), (3, 1, true));
    assert!(kept.log_timestamp > 1_600_000_000_000);
}

#[test]
fn forgotten_hosts_have_their_rest_logged() {
    let mut state = State::new();
    let mut log: Vec<LogLine> = Vec::new();
    state.failed_at(5000, peer(OTHER), &mut log);
    state.failed_at(5000, peer(OTHER), &mut log);
    state.failed_at(5000, peer(HOST), &mut log);
    state.failed_at(5001, peer(IpAddr::V6(1)), &mut log);
    state.exceeded_at(4000, peer(HOST), 77, &mut log);
    // Nothing waits to be logged for this host.
    state.exceeded_at(1000, peer(OTHER), 1, &mut log);
    state.exceeded_at(2000, peer(OTHER), 1, &mut log);
    log.clear();
    state.periodic_at(14999, &vec![], &mut log);
    assert_eq!(
        log,
        vec![Line::Exceeded { timestamp: 14999, host: HOST, stake: 77, count: 1 }]
    );
    assert!(state.exceeds.is_empty());
    log.clear();
    state.periodic_at(15000, &vec![], &mut log);
    assert_eq!(
        log,
        vec![
            Line::Failed { timestamp: 15000, host: HOST, count: 1 },
            Line::Failed { timestamp: 15000, host: OTHER, count: 2 },
        ]
    );
    assert_eq!(failures(&state, HOST), None);
    assert_eq!(
        failures(&state, IpAddr::V6(1)),
        Some(Failures { log_timestamp: 5001, changed: true, count: 1 })
    );
}

#[test]
fn every_attempt_is_reported_once() {
    let mut state = State::new();
    let mut log: Vec<LogLine> = Vec::new();
    let mut now = 10_000;
    for i in 0..1234u64 {
        now += if i % 7 == 0 { 130 } else { 1 };
        state.failed_at(now, peer(HOST), &mut log);
        if i % 100 == 0 {
            state.periodic_at(now, &vec![], &mut log);
        }
    }
    state.periodic_at(now + 10_000, &vec![], &mut log);
    let mut reported = 0;
    for line in &log {
        match line {
            Line::Failed { count, .. } => {
                assert!(*count <= 100);
                reported += count;
            }
            _ => unreachable!(),
        }
    }
    assert_eq!(reported, 1234);
    assert!(state.failures.is_empty());
}

#[test]
fn both_kinds_of_attempts_are_counted_alike() {
    let mut one = State::new();
    let mut other = State::new();
    let mut now = 10_000;
    for i in 0..2000u64 {
        let mut lines: Vec<LogLine> = Vec::new();
        let mut other_lines: Vec<LogLine> = Vec::new();
        now += if i % 13 == 0 { 400 } else { 2 };
        if i % 50 == 49 {
            now += if i % 200 == 199 { 12_000 } else { 0 };
            one.periodic_at(now, &vec![], &mut lines);
            other.periodic_at(now, &vec![], &mut other_lines);
        } else {
            let ip = if i % 3 == 0 { HOST } else { OTHER };
            one.exceeded_at(now, peer(ip), i, &mut lines);
            other.failed_at(now, peer(ip), &mut other_lines);
        }
        let reports = lines
            .iter()
            .map(|line| match line {
                Line::Exceeded { timestamp, host, count, .. } => (*timestamp, *host, *count),
                _ => unreachable!(),
            })
            .collect::<Vec<(u64, IpAddr, u64)>>();
        let other_reports = other_lines
            .iter()
            .map(|line| match line {
                Line::Failed { timestamp, host, count } => (*timestamp, *host, *count),
                _ => unreachable!(),
            })
            .collect::<Vec<(u64, IpAddr, u64)>>();
        assert_eq!(reports, other_reports);
        assert_eq!(one.exceeds.keys(), other.failures.keys());
        for ip in one.exceeds.keys() {
            let a = one.exceeds.get(&ip).copied().unwrap();
            let b = failures(&other, ip).unwrap();
            assert_eq!(
                (a.log_timestamp, a.changed, a.count),
                (b.log_timestamp, b.changed, b.count)
            );
            assert_eq!(b.changed, b.count > 0);
            assert!(b.count < 100);
            assert!(b.log_timestamp > 0);
        }
    }
}
