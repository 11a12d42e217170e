use txingest_receiver::addr::{IpAddr, SocketAddr};
use txingest_receiver::connection::Connection;
use txingest_receiver::log::{Action, Line, LogLine, Summary};
use txingest_receiver::signature::Signature;
use txingest_receiver::state::State;
use txingest_receiver::sweep::{log_active_or_ended, log_dups};

const A: SocketAddr = SocketAddr { ip: IpAddr::V4(0x0A000001), port: 8001 };
const B: SocketAddr = SocketAddr { ip: IpAddr::V4(0x0A000002), port: 8002 };
const C: SocketAddr = SocketAddr { ip: IpAddr::V6(5), port: 8003 };

fn signature(n: u8) -> Signature {
    Signature { bytes: [n; 64] }
}

fn nothing() -> Summary {
    Summary {
        stake: 0,
        duration: 0,
        num_dup_tx: 0,
        num_vote_tx: 0,
        num_user_tx: 0,
        num_badfee_tx: 0,
        num_fee_tx: 0,
        min_fee: 0,
        max_fee: 0,
        total_fees: 0,
        is_partial: false,
    }
}

fn user(state: &mut State, now: u64, peer: SocketAddr, timestamp: u64, n: u8) {
    let mut log: Vec<LogLine> = Vec::new();
    state.usertx_at(now, false, timestamp, peer.ip, peer.port, signature(n), &mut log);
}

fn started(state: &mut State, now: u64, peer: SocketAddr, timestamp: u64, stake: u64) {
    let mut log: Vec<LogLine> = Vec::new();
    state.stake_at(now, timestamp, peer, stake, &mut log);
}

fn sweep(state: &mut State, now: u64, stamps: Vec<u64>) -> Vec<LogLine> {
    let mut log: Vec<LogLine> = Vec::new();
    state.periodic_at(now, &stamps, &mut log);
    log
}

#[test]
fn an_idle_connection_is_logged_as_inactive_once() {
    let mut state = State::new();
    started(&mut state, 1000, A, 1000, 42);
    assert_eq!(sweep(&mut state, 10_999, vec![]), vec![]);
    assert_eq!(
        sweep(&mut state, 11_000, vec![]),
        vec![Line::Inactive { timestamp: 11_000, peer: A, stake: 42 }]
    );
    assert_eq!(sweep(&mut state, 21_000, vec![]), vec![]);
    assert_eq!(sweep(&mut state, 91_000, vec![]), vec![]);
}

#[test]
fn a_connection_with_traffic_is_not_logged_as_inactive() {
    let mut state = State::new();
    started(&mut state, 1000, A, 1000, 42);
    state.votetx_at(1000, A.ip, A.port);
    assert_eq!(
        sweep(&mut state, 11_000, vec![11_003]),
        vec![Line::Summed {
            timestamp: 11_003,
            action: Action::Active,
            peer: A,
            summary: Summary { stake: 42, duration: 10_003, num_vote_tx: 1, ..nothing() },
        }]
    );
    assert_eq!(sweep(&mut state, 21_003, vec![]), vec![]);
    assert_eq!(sweep(&mut state, 91_003, vec![]), vec![]);
}

#[test]
fn changes_are_summed_up_every_ten_seconds_at_most() {
    let mut state = State::new();
    started(&mut state, 1000, A, 1000, 0);
    user(&mut state, 1, A, 1500, 1);
    assert_eq!(sweep(&mut state, 10_999, vec![]), vec![]);
    assert_eq!(sweep(&mut state, 11_000, vec![11_500]).len(), 1);
    user(&mut state, 1, A, 12_000, 1);
    // The wait begins when the summary was made.
    assert_eq!(sweep(&mut state, 21_499, vec![]), vec![]);
    assert_eq!(
        sweep(&mut state, 21_500, vec![21_501]),
        vec![Line::Summed {
            timestamp: 21_501,
            action: Action::Active,
            peer: A,
            summary: Summary {
                duration: 20_501,
                num_dup_tx: 1,
                num_user_tx: 2,
                ..nothing()
            },
        }]
    );
}

#[test]
fn an_ended_connection_without_user_transactions_is_forgotten_at_once() {
    let mut state = State::new();
    started(&mut state, 1000, A, 1000, 3);
    state.votetx_at(1000, A.ip, A.port);
    state.closed(1250, A);
    assert_eq!(
        sweep(&mut state, 1300, vec![1301]),
        vec![Line::Summed {
            timestamp: 1301,
            action: Action::Closed,
            peer: A,
            summary: Summary { stake: 3, duration: 250, num_vote_tx: 1, ..nothing() },
        }]
    );
    assert!(state.connections.is_empty());
}

#[test]
fn an_ended_connection_waits_for_the_fees_of_its_latest_transaction() {
    let mut state = State::new();
    let mut log: Vec<LogLine> = Vec::new();
    started(&mut state, 1000, A, 1000, 3);
    user(&mut state, 1, A, 2000, 1);
    state.pruned(2500, A);
    assert_eq!(sweep(&mut state, 31_999, vec![]), vec![]);
    // Fees are still credited.
    state.fee(false, 31_999, signature(1), 77, &mut log);
    assert_eq!(
        sweep(&mut state, 32_000, vec![32_100]),
        vec![Line::Summed {
            timestamp: 32_100,
            action: Action::Dropped,
            peer: A,
            summary: Summary {
                stake: 3,
                duration: 1500,
                num_user_tx: 1,
                num_fee_tx: 1,
                min_fee: 77,
                max_fee: 77,
                total_fees: 77,
                ..nothing()
            },
        }]
    );
    assert!(state.connections.is_empty());
    // With the connection its transactions are forgotten.
    assert!(state.txs.is_empty());
    state.fee(true, 33_000, signature(1), 77, &mut log);
    state.badfee(33_000, signature(1));
    assert_eq!(log, vec![]);
    assert!(state.connections.is_empty());
}

#[test]
fn transactions_of_remembered_connections_are_kept() {
    let mut state = State::new();
    user(&mut state, 1, A, 2000, 1);
    user(&mut state, 1, B, 2000, 2);
    user(&mut state, 1, B, 2000, 1);
    state.closed(3000, A);
    sweep(&mut state, 32_000, vec![1, 2]);
    assert_eq!(state.connections.keys(), vec![B]);
    assert_eq!(state.txs.keys(), vec![signature(2)]);
    assert_eq!(state.txs.get(&signature(2)).copied(), Some(B));
    // What A delivered first is new again.
    user(&mut state, 1, B, 40_000, 1);
    assert_eq!(state.txs.get(&signature(1)).copied(), Some(B));
    assert_eq!(state.connections.get(&B).unwrap().dup_tx_count, 1);
}

#[test]
fn hosts_whose_transactions_were_repeated_are_named_at_the_end() {
    let mut state = State::new();
    user(&mut state, 1000, C, 2000, 3);
    user(&mut state, 1000, B, 2000, 1);
    user(&mut state, 1000, B, 2000, 2);
    user(&mut state, 1000, A, 2000, 3);
    user(&mut state, 1000, A, 2000, 2);
    user(&mut state, 1000, A, 2000, 1);
    state.closed(2600, A);
    assert_eq!(
        sweep(&mut state, 32_000, vec![1, 2, 3, 4]),
        vec![
            Line::Summed {
                timestamp: 1,
                action: Action::Closed,
                peer: A,
                summary: Summary {
                    duration: 1600,
                    num_dup_tx: 3,
                    num_user_tx: 3,
                    is_partial: true,
                    ..nothing()
                },
            },
            Line::Dups { timestamp: 2, peer: A, others: vec![B.ip, C.ip] },
            Line::Summed {
                timestamp: 3,
                action: Action::Active,
                peer: B,
                summary: Summary { num_user_tx: 2, is_partial: true, ..nothing() },
            },
            Line::Summed {
                timestamp: 4,
                action: Action::Active,
                peer: C,
                summary: Summary { num_user_tx: 1, is_partial: true, ..nothing() },
            },
        ]
    );
    assert_eq!(state.connections.get(&B).unwrap().log_timestamp, 3);
}

#[test]
fn repeated_hosts_are_named_whatever_is_counted() {
    let peer = SocketAddr::new(IpAddr::V4(0x01020304), 80);
    let mut log: Vec<LogLine> = Vec::new();
    let mut connection = Connection::new(Some(7), 1000, 1000);
    log_dups(&peer, &connection, 8000, &mut log);
    assert_eq!(log, vec![]);
    connection.dup_peers.insert(IpAddr::V4(0x05060708), ());
    log_dups(&peer, &connection, 9000, &mut log);
    assert_eq!(
        log,
        vec![Line::Dups { timestamp: 9000, peer, others: vec![IpAddr::V4(0x05060708)] }]
    );
    log.clear();
    log_active_or_ended(&peer, &mut connection, Action::Dropped, 9500, &mut log);
    assert_eq!(
        log,
        vec![Line::Summed {
            timestamp: 9500,
            action: Action::Dropped,
            peer,
            summary: Summary { stake: 7, duration: 8500, ..nothing() },
        }]
    );
    assert_eq!(connection.log_timestamp, 9500);
    assert_eq!(connection.dup_peers.keys(), vec![IpAddr::V4(0x05060708)]);
}

#[test]
fn own_duplicates_name_nobody() {
    let mut state = State::new();
    user(&mut state, 1000, A, 2000, 1);
    user(&mut state, 1000, A, 2000, 1);
    state.closed(2600, A);
    assert_eq!(sweep(&mut state, 32_000, vec![5]).len(), 1);
}

#[test]
fn a_sweep_goes_through_hosts_then_connections_in_order() {
    let mut state = State::new();
    let mut log: Vec<LogLine> = Vec::new();
    started(&mut state, 0, C, 0, 1);
    started(&mut state, 0, B, 0, 2);
    started(&mut state, 0, A, 0, 3);
    started(&mut state, 0, SocketAddr::new(A.ip, 1), 0, 4);
    state.exceeded_at(1, A, 9, &mut log);
    state.failed_at(1, C, &mut log);
    state.failed_at(1, B, &mut log);
    assert_eq!(
        sweep(&mut state, 20_000, vec![]),
        vec![
            Line::Failed { timestamp: 20_000, host: B.ip, count: 1 },
            Line::Failed { timestamp: 20_000, host: C.ip, count: 1 },
            Line::Exceeded { timestamp: 20_000, host: A.ip, stake: 9, count: 1 },
            Line::Inactive { timestamp: 20_000, peer: SocketAddr::new(A.ip, 1), stake: 4 },
            Line::Inactive { timestamp: 20_000, peer: A, stake: 3 },
            Line::Inactive { timestamp: 20_000, peer: B, stake: 2 },
            Line::Inactive { timestamp: 20_000, peer: C, stake: 1 },
        ]
    );
}

#[test]
fn a_second_sweep_finds_nothing_to_do() {
    let mut state = State::new();
    let mut log: Vec<LogLine> = Vec::new();
    user(&mut state, 1000, A, 2000, 1);
    user(&mut state, 1000, B, 2000, 1);
    started(&mut state, 1000, C, 1000, 1);
    state.closed(3000, B);
    state.failed_at(1, C, &mut log);
    assert_eq!(sweep(&mut state, 32_000, vec![32_001, 32_002, 32_003]).len(), 5);
    assert_eq!(sweep(&mut state, 32_000, vec![]), vec![]);
    assert_eq!(state.connections.keys(), vec![A, C]);
}

#[test]
fn periodic_reads_the_clock_for_summaries() {
    let mut state = State::new();
    let mut log: Vec<LogLine> = Vec::new();
    user(&mut state, 1000, A, 2000, 1);
    user(&mut state, 1000, B, 2000, 1);
    state.closed(3000, B);
    assert_eq!(state.periodic(50_000, &mut log), Ok(()));
    assert_eq!(log.len(), 3);
    match &log[0] {
        Line::Summed { timestamp, action: Action::Active, peer, summary } => {
            assert!(*timestamp > 1_600_000_000_000);
            assert_eq!(*peer, A);
            assert_eq!(summary.duration, timestamp - 1000);
            assert_eq!(state.connections.get(&A).unwrap().log_timestamp, *timestamp);
        }
        other => panic!("{:?}", other),
    }
    assert!(matches!(&log[1], Line::Summed { action: Action::Closed, peer, .. } if *peer == B));
    assert!(matches!(&log[2], Line::Dups { peer, others, .. } if *peer == B && *others == vec![A.ip]));
}
