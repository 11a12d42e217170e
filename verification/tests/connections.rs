use txingest_receiver::addr::{IpAddr, SocketAddr};
use txingest_receiver::connection::{Connection, ConnectionState, Verdict};
use txingest_receiver::leader::LeaderStatus;
use txingest_receiver::log::{Action, Line, LogLine, Summary};
use txingest_receiver::signature::Signature;
use txingest_receiver::state::State;

const A: SocketAddr = SocketAddr { ip: IpAddr::V4(0x0A000001), port: 8001 };
const B: SocketAddr = SocketAddr { ip: IpAddr::V4(0x0A000002), port: 8002 };
const C: SocketAddr = SocketAddr { ip: IpAddr::V4(0x0A000003), port: 8003 };

fn signature(n: u8) -> Signature {
    Signature { bytes: [n; 64] }
}

fn user(state: &mut State, now: u64, peer: SocketAddr, timestamp: u64, n: u8) {
    let mut log: Vec<LogLine> = Vec::new();
    state.usertx_at(now, false, timestamp, peer.ip, peer.port, signature(n), &mut log);
    assert_eq!(log, vec![]);
}

fn started(state: &mut State, now: u64, peer: SocketAddr, timestamp: u64, stake: u64) {
    let mut log: Vec<LogLine> = Vec::new();
    state.stake_at(now, timestamp, peer, stake, &mut log);
    assert_eq!(log, vec![Line::Started { timestamp, peer, stake }]);
}

fn of(state: &State, peer: SocketAddr) -> &Connection {
    state.connections.get(&peer).unwrap()
}

fn counts(connection: &Connection) -> Vec<u64> {
    vec![
        connection.dup_tx_count,
        connection.vote_tx_count,
        connection.user_tx_count,
        connection.badfee_tx_count,
        connection.fee_tx_count,
        connection.min_fee,
        connection.max_fee,
        connection.total_fees,
    ]
}

#[test]
fn a_new_state_is_empty() {
    let state = State::default();
    assert_eq!(state.leader_status, LeaderStatus::NotSoon);
    assert!(state.failures.is_empty());
    assert!(state.exceeds.is_empty());
    assert!(state.connections.is_empty());
    assert!(state.txs.is_empty());
}

#[test]
fn a_start_makes_a_complete_connection() {
    let mut state = State::new();
    started(&mut state, 1007, A, 1000, 55);
    let connection = of(&state, A);
    assert!(!connection.is_partial);
    assert_eq!(connection.stake, 55);
    assert_eq!(connection.state, ConnectionState::Open);
    assert_eq!(connection.start_timestamp, 1000);
    assert_eq!(connection.end_timestamp, 0);
    assert_eq!(connection.user_tx_timestamp, 0);
    assert_eq!(connection.log_timestamp, 1007);
    assert!(!connection.inactive_logged);
    assert!(!connection.changed);
    assert!(connection.dup_peers.is_empty());
    assert_eq!(counts(connection), vec![0, 0, 0, 0, 0, u64::MAX, 0, 0]);
}

#[test]
fn a_repeated_start_changes_nothing() {
    let mut state = State::new();
    started(&mut state, 1007, A, 1000, 55);
    started(&mut state, 2007, A, 2000, 66);
    let connection = of(&state, A);
    assert_eq!(connection.stake, 55);
    assert_eq!(connection.start_timestamp, 1000);
    assert_eq!(connection.log_timestamp, 1007);
}

#[test]
fn a_late_start_gives_a_partial_connection_its_stake() {
    let mut state = State::new();
    state.votetx_at(900, A.ip, A.port);
    assert!(of(&state, A).is_partial);
    assert_eq!(of(&state, A).stake, 0);
    started(&mut state, 1007, A, 1000, 55);
    let connection = of(&state, A);
    assert!(connection.is_partial);
    assert_eq!(connection.stake, 55);
    assert_eq!(connection.start_timestamp, 900);
    assert_eq!(connection.log_timestamp, 900);
}

#[test]
fn stake_reads_the_clock_for_a_new_connection() {
    let mut state = State::new();
    let mut log: Vec<LogLine> = Vec::new();
    assert_eq!(state.stake(1000, A, 55, &mut log), Ok(()));
    assert_eq!(state.stake(2000, A, 66, &mut log), Ok(()));
    assert_eq!(
        log,
        vec![
            Line::Started { timestamp: 1000, peer: A, stake: 55 },
            Line::Started { timestamp: 2000, peer: A, stake: 66 },
        ]
    );
    assert_eq!(of(&state, A).start_timestamp, 1000);
    assert!(of(&state, A).log_timestamp > 1_600_000_000_000);
}

#[test]
fn votes_are_counted() {
    let mut state = State::new();
    assert_eq!(state.votetx(1, A.ip, A.port), Ok(()));
    assert_eq!(state.votetx(2, A.ip, A.port), Ok(()));
    let connection = of(&state, A);
    assert_eq!(connection.vote_tx_count, 2);
    assert!(connection.changed);
    assert!(connection.is_partial);
    assert!(connection.start_timestamp > 1_600_000_000_000);
    assert_eq!(connection.start_timestamp, connection.log_timestamp);
}

#[test]
fn a_user_transaction_has_its_first_sender_on_record() {
    let mut state = State::new();
    let mut log: Vec<LogLine> = Vec::new();
    assert_eq!(state.usertx(false, 70, A.ip, A.port, signature(1), &mut log), Ok(()));
    assert_eq!(log, vec![]);
    assert_eq!(state.txs.get(&signature(1)).copied(), Some(A));
    assert_eq!(state.txs.get(&signature(2)).copied(), None);
    let connection = of(&state, A);
    assert_eq!(connection.user_tx_timestamp, 70);
    assert_eq!(counts(connection), vec![0, 0, 1, 0, 0, u64::MAX, 0, 0]);
}

#[test]
fn duplicates_are_counted_and_their_first_senders_named() {
    let mut state = State::new();
    user(&mut state, 1, A, 10, 1);
    user(&mut state, 1, B, 11, 2);
    // From another peer.
    user(&mut state, 1, C, 12, 1);
    user(&mut state, 1, C, 13, 2);
    user(&mut state, 1, C, 14, 1);
    // From the same connection again.
    user(&mut state, 1, A, 15, 1);
    assert_eq!(of(&state, A).dup_tx_count, 1);
    assert!(of(&state, A).dup_peers.is_empty());
    assert_eq!(of(&state, B).dup_tx_count, 0);
    assert_eq!(of(&state, C).dup_tx_count, 3);
    assert_eq!(of(&state, C).dup_peers.keys(), vec![A.ip, B.ip]);
    assert_eq!(of(&state, C).user_tx_count, 3);
    assert_eq!(of(&state, C).user_tx_timestamp, 14);
    assert_eq!(state.txs.get(&signature(1)).copied(), Some(A));
    assert_eq!(state.txs.get(&signature(2)).copied(), Some(B));
}

#[test]
fn another_connection_of_the_same_host_is_another_peer() {
    let mut state = State::new();
    let again = SocketAddr::new(A.ip, 9999);
    user(&mut state, 1, A, 10, 1);
    user(&mut state, 1, again, 11, 1);
    assert_eq!(of(&state, again).dup_peers.keys(), vec![A.ip]);
}

#[test]
fn fees_go_to_the_first_sender() {
    let mut state = State::new();
    let mut log: Vec<LogLine> = Vec::new();
    user(&mut state, 1, A, 10, 1);
    user(&mut state, 1, A, 10, 2);
    user(&mut state, 1, B, 11, 1);
    state.fee(false, 20, signature(1), 5000, &mut log);
    state.fee(false, 21, signature(2), 7000, &mut log);
    state.fee(false, 22, signature(2), 6000, &mut log);
    // Not delivered by anyone.
    state.fee(true, 23, signature(3), 1, &mut log);
    assert_eq!(log, vec![]);
    assert_eq!(counts(of(&state, A)), vec![0, 0, 2, 0, 3, 5000, 7000, 18000]);
    assert_eq!(counts(of(&state, B)), vec![1, 0, 1, 0, 0, u64::MAX, 0, 0]);
    assert!(!state.txs.contains_key(&signature(3)));
}

#[test]
fn bad_fees_go_to_the_first_sender() {
    let mut state = State::new();
    user(&mut state, 1, A, 10, 1);
    user(&mut state, 1, B, 11, 1);
    state.badfee(20, signature(1));
    state.badfee(20, signature(9));
    assert_eq!(of(&state, A).badfee_tx_count, 1);
    assert_eq!(of(&state, B).badfee_tx_count, 0);
    assert_eq!(state.connections.keys(), vec![A, B]);
}

#[test]
fn forwarded_transactions_are_ignored() {
    let mut state = State::new();
    user(&mut state, 1, A, 10, 1);
    state.forwarded(20, signature(1));
    state.forwarded(20, signature(2));
    assert_eq!(counts(of(&state, A)), vec![0, 0, 1, 0, 0, u64::MAX, 0, 0]);
    assert_eq!(state.txs.keys(), vec![signature(1)]);
}

#[test]
fn transactions_are_logged_on_request() {
    let mut state = State::new();
    let mut log: Vec<LogLine> = Vec::new();
    state.will_be_leader(5, 2, &mut log);
    log.clear();
    state.usertx_at(1, true, 10, A.ip, A.port, signature(1), &mut log);
    state.usertx_at(1, true, 11, B.ip, B.port, signature(1), &mut log);
    state.fee(true, 12, signature(1), 5000, &mut log);
    assert_eq!(
        log,
        vec![
            Line::Tx {
                timestamp: 10,
                peer: A,
                signature: signature(1),
                leader: LeaderStatus::VerySoon,
            },
            Line::Tx {
                timestamp: 11,
                peer: B,
                signature: signature(1),
                leader: LeaderStatus::VerySoon,
            },
            Line::Fee { timestamp: 12, peer: A, signature: signature(1), fee: 5000 },
        ]
    );
}

#[test]
fn the_end_of_an_unknown_connection_is_ignored() {
    let mut state = State::new();
    state.pruned(5, A);
    state.closed(5, A);
    assert!(state.connections.is_empty());
}

#[test]
fn a_pruned_connection_is_not_closed() {
    let mut state = State::new();
    started(&mut state, 1, A, 1, 0);
    state.pruned(50, A);
    state.closed(60, A);
    assert_eq!(of(&state, A).state, ConnectionState::Pruned);
    assert_eq!(of(&state, A).end_timestamp, 50);
}

#[test]
fn a_closed_connection_can_still_be_pruned() {
    let mut state = State::new();
    started(&mut state, 1, A, 1, 0);
    state.closed(50, A);
    state.closed(55, A);
    assert_eq!(of(&state, A).state, ConnectionState::Closed);
    assert_eq!(of(&state, A).end_timestamp, 50);
    state.pruned(60, A);
    assert_eq!(of(&state, A).state, ConnectionState::Pruned);
    assert_eq!(of(&state, A).end_timestamp, 60);
}

#[test]
fn counts_stay_with_their_connection() {
    let mut state = State::new();
    let mut log: Vec<LogLine> = Vec::new();
    user(&mut state, 1, A, 10, 1);
    user(&mut state, 1, B, 10, 2);
    state.fee(false, 1, signature(1), 3, &mut log);
    let before = counts(of(&state, B));
    state.votetx_at(2, A.ip, A.port);
    state.badfee(3, signature(1));
    state.pruned(4, A);
    assert_eq!(counts(of(&state, B)), before);
    assert_eq!(of(&state, B).state, ConnectionState::Open);
    assert_eq!(counts(of(&state, A)), vec![0, 1, 1, 1, 1, 3, 3, 3]);
}

#[test]
fn leader_events_set_the_status() {
    let mut state = State::new();
    let mut log: Vec<LogLine> = Vec::new();
    state.will_be_leader(1, 200, &mut log);
    assert_eq!(state.leader_status, LeaderStatus::KindaSoon);
    state.will_be_leader(2, 20, &mut log);
    assert_eq!(state.leader_status, LeaderStatus::Soon);
    state.begin_leader(3, &mut log);
    assert_eq!(state.leader_status, LeaderStatus::Leader);
    state.end_leader(4, &mut log);
    assert_eq!(state.leader_status, LeaderStatus::NotSoon);
    assert_eq!(
        log,
        vec![
            Line::LeaderUpcoming { timestamp: 1, slots: 200 },
            Line::LeaderUpcoming { timestamp: 2, slots: 20 },
            Line::LeaderBegin { timestamp: 3 },
            Line::LeaderEnd { timestamp: 4 },
        ]
    );
}

#[test]
fn verdicts_on_open_connections() {
    let mut connection = Connection::new(Some(1), 1000, 1500);
    assert_eq!(connection.judge(10_999), Verdict::Keep);
    assert_eq!(connection.judge(11_000), Verdict::Inactive);
    connection.inactive_logged = true;
    assert_eq!(connection.judge(11_000), Verdict::Keep);
    connection.add_vote();
    assert_eq!(connection.judge(11_499), Verdict::Keep);
    assert_eq!(connection.judge(11_500), Verdict::Active);
    connection.sum_up(12_000);
    assert_eq!(connection.judge(21_999), Verdict::Keep);
    // Nothing new has come in.
    assert_eq!(connection.judge(1_000_000), Verdict::Keep);
}

#[test]
fn a_connection_that_delivered_is_never_inactive() {
    let mut connection = Connection::new(Some(1), 1000, 1000);
    connection.add_vote();
    connection.sum_up(11_000);
    assert!(!connection.inactive_logged);
    assert_eq!(connection.judge(100_000), Verdict::Keep);
    let mut connection = Connection::new(Some(1), 1000, 1000);
    connection.add_user_tx(1, A, None);
    connection.sum_up(11_000);
    assert_eq!(connection.judge(100_000), Verdict::Keep);
}

#[test]
fn verdicts_on_ended_connections() {
    let mut connection = Connection::new(Some(1), 1000, 1000);
    connection.add_vote();
    connection.prune(2000);
    assert_eq!(connection.judge(0), Verdict::End(Action::Dropped));
    let mut connection = Connection::new(None, 1000, 1000);
    connection.add_user_tx(5000, A, None);
    connection.close(6000);
    assert_eq!(connection.judge(34_999), Verdict::Keep);
    assert_eq!(connection.judge(35_000), Verdict::End(Action::Closed));
    connection.prune(7000);
    assert_eq!(connection.judge(34_999), Verdict::Keep);
    assert_eq!(connection.judge(35_000), Verdict::End(Action::Dropped));
}

#[test]
fn verdicts_at_the_end_of_time() {
    let mut connection = Connection::new(Some(1), u64::MAX, u64::MAX);
    assert_eq!(connection.judge(u64::MAX), Verdict::Keep);
    connection.add_user_tx(u64::MAX, A, None);
    assert_eq!(connection.judge(u64::MAX), Verdict::Keep);
    connection.close(u64::MAX);
    assert_eq!(connection.judge(u64::MAX), Verdict::Keep);
}

#[test]
fn a_summary_of_an_open_connection_lasts_until_now() {
    let mut connection = Connection::new(None, 1000, 1000);
    connection.add_vote();
    let summary = connection.sum_up(12_345);
    assert_eq!(
        summary,
        Summary {
            stake: 0,
            duration: 11_345,
            num_dup_tx: 0,
            num_vote_tx: 1,
            num_user_tx: 0,
            num_badfee_tx: 0,
            num_fee_tx: 0,
            min_fee: 0,
            max_fee: 0,
            total_fees: 0,
            is_partial: true,
        }
    );
    assert!(!connection.changed);
    assert_eq!(connection.log_timestamp, 12_345);
    assert_eq!(connection.vote_tx_count, 1);
}

#[test]
fn a_summary_of_an_ended_connection_lasts_until_its_end() {
    let mut connection = Connection::new(Some(9), 1000, 1000);
    connection.add_user_tx(2000, A, Some(B));
    connection.add_fee(40);
    connection.add_fee(30);
    connection.add_badfee();
    connection.close(4500);
    let summary = connection.sum_up(99_999);
    assert_eq!(
        summary,
        Summary {
            stake: 9,
            duration: 3500,
            num_dup_tx: 1,
            num_vote_tx: 0,
            num_user_tx: 1,
            num_badfee_tx: 1,
            num_fee_tx: 2,
            min_fee: 30,
            max_fee: 40,
            total_fees: 70,
            is_partial: false,
        }
    );
}

#[test]
fn an_end_before_the_start_lasts_no_time() {
    let mut connection = Connection::new(Some(9), 1000, 1000);
    connection.prune(400);
    assert_eq!(connection.sum_up(99_999).duration, 0);
}

#[test]
fn the_highest_possible_fee_is_shown_as_no_fee_at_the_low_end() {
    let mut connection = Connection::new(Some(9), 1000, 1000);
    connection.add_user_tx(2000, A, None);
    connection.add_fee(u64::MAX);
    let summary = connection.sum_up(2000);
    assert_eq!((summary.min_fee, summary.max_fee, summary.total_fees), (0, u64::MAX, u64::MAX));
}

#[test]
fn a_partial_connection_takes_over_a_stake() {
    let mut connection = Connection::new(None, 1, 1);
    connection.restake(7);
    assert_eq!(connection.stake, 7);
    let mut connection = Connection::new(Some(3), 1, 1);
    connection.restake(7);
    assert_eq!(connection.stake, 3);
}

#[test]
fn counts_of_a_connection_are_in_bounds() {
    let mut state = State::new();
    let mut log: Vec<LogLine> = Vec::new();
    user(&mut state, 1, A, 10, 1);
    user(&mut state, 1, B, 11, 2);
    user(&mut state, 1, C, 12, 1);
    user(&mut state, 1, C, 13, 2);
    user(&mut state, 1, C, 14, 2);
    user(&mut state, 1, C, 15, 3);
    assert_eq!(of(&state, C).dup_peers.keys().len(), 2);
    assert_eq!(of(&state, C).dup_tx_count, 3);
    for fee in [500u64, 90, 7000] {
        state.fee(false, 20, signature(3), fee, &mut log);
        let connection = of(&state, C);
        assert!(connection.min_fee * connection.fee_tx_count <= connection.total_fees);
        assert!(connection.total_fees <= connection.max_fee * connection.fee_tx_count);
    }
    assert_eq!(counts(of(&state, C)), vec![3, 0, 4, 0, 3, 90, 7000, 7590]);
}

#[test]
fn showing_transactions_changes_the_log_only() {
    let mut shown = State::new();
    let mut hidden = State::new();
    let mut log: Vec<LogLine> = Vec::new();
    let mut other_log: Vec<LogLine> = Vec::new();
    shown.usertx_at(1, true, 10, A.ip, A.port, signature(1), &mut log);
    hidden.usertx_at(1, false, 10, A.ip, A.port, signature(1), &mut other_log);
    assert_eq!(log.len(), 1);
    assert_eq!(other_log.len(), 0);
    assert_eq!(counts(of(&shown, A)), counts(of(&hidden, A)));
    assert_eq!(shown.txs.keys(), hidden.txs.keys());
}
