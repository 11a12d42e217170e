use txingest_receiver::addr::{IpAddr, SocketAddr};
use txingest_receiver::args::{select, Selection};
use txingest_receiver::leader::LeaderStatus;
use txingest_receiver::log::{Line, LogLine};
use txingest_receiver::message::TxIngestMsg;
use txingest_receiver::receiver::{Event, Receiver};
use txingest_receiver::signature::Signature;
use txingest_receiver::state::{Fault, State};

const A: SocketAddr = SocketAddr { ip: IpAddr::V4(0x7F000001), port: 8001 };

fn signature(n: u8) -> Signature {
    Signature { bytes: [n; 64] }
}

fn send(receiver: &mut Receiver, msg: TxIngestMsg) -> (Result<bool, Fault>, Vec<LogLine>) {
    let mut log: Vec<LogLine> = Vec::new();
    let more = receiver.on_event(Event::Message(msg), &mut log);
    (more, log)
}

#[test]
fn a_new_receiver_has_heard_nothing() {
    let receiver = Receiver::new(true);
    assert!(receiver.show_tx);
    assert_eq!(receiver.last_log_timestamp, 0);
    assert!(receiver.state.connections.is_empty());
    assert!(!Receiver::new(false).show_tx);
}

#[test]
fn the_receiver_goes_on_until_it_is_disconnected() {
    let mut receiver = Receiver::new(false);
    let mut log: Vec<LogLine> = Vec::new();
    assert_eq!(receiver.on_event(Event::Timeout, &mut log), Ok(true));
    assert_eq!(receiver.on_event(Event::Disconnected, &mut log), Ok(false));
    assert_eq!(log, vec![]);
}

#[test]
fn every_message_reaches_its_event() {
    let mut receiver = Receiver::new(true);
    let ok: Result<bool, Fault> = Ok(true);

    let (more, log) = send(&mut receiver, TxIngestMsg::Failed { timestamp: 1, peer_addr: A });
    assert_eq!((more, log), (ok, vec![]));
    assert_eq!(receiver.state.failures.get(&A.ip).unwrap().count, 1);

    let (more, log) =
        send(&mut receiver, TxIngestMsg::Exceeded { timestamp: 2, peer_addr: A, stake: 6 });
    assert_eq!((more, log), (ok, vec![]));
    assert_eq!(receiver.state.exceeds.get(&A.ip).unwrap().stake, 6);

    let (more, log) =
        send(&mut receiver, TxIngestMsg::Stake { timestamp: 3, peer_addr: A, stake: 7 });
    assert_eq!((more, log), (ok, vec![Line::Started { timestamp: 3, peer: A, stake: 7 }]));

    let vote = TxIngestMsg::VoteTx { timestamp: 4, peer_addr: A.ip, peer_port: A.port };
    assert_eq!(send(&mut receiver, vote), (ok, vec![]));

    let (more, log) = send(
        &mut receiver,
        TxIngestMsg::UserTx {
            timestamp: 5,
            peer_addr: A.ip,
            peer_port: A.port,
            signature: signature(1),
        },
    );
    assert_eq!(
        (more, log),
        (
            ok,
            vec![Line::Tx {
                timestamp: 5,
                peer: A,
                signature: signature(1),
                leader: LeaderStatus::NotSoon,
            }]
        )
    );

    let forwarded = TxIngestMsg::Forwarded { timestamp: 6, signature: signature(1) };
    assert_eq!(send(&mut receiver, forwarded), (ok, vec![]));

    let badfee = TxIngestMsg::BadFee { timestamp: 7, signature: signature(1) };
    assert_eq!(send(&mut receiver, badfee), (ok, vec![]));

    let fee = TxIngestMsg::Fee { timestamp: 8, signature: signature(1), fee: 5000 };
    assert_eq!(
        send(&mut receiver, fee),
        (
            ok,
            vec![Line::Fee { timestamp: 8, peer: A, signature: signature(1), fee: 5000 }]
        )
    );

    let upcoming = TxIngestMsg::WillBeLeader { timestamp: 9, slots: 21 };
    assert_eq!(
        send(&mut receiver, upcoming),
        (ok, vec![Line::LeaderUpcoming { timestamp: 9, slots: 21 }])
    );
    assert_eq!(receiver.state.leader_status, LeaderStatus::KindaSoon);

    let begin = TxIngestMsg::BeginLeader { timestamp: 10 };
    assert_eq!(send(&mut receiver, begin), (ok, vec![Line::LeaderBegin { timestamp: 10 }]));
    assert_eq!(receiver.state.leader_status, LeaderStatus::Leader);

    let end = TxIngestMsg::EndLeader { timestamp: 11 };
    assert_eq!(send(&mut receiver, end), (ok, vec![Line::LeaderEnd { timestamp: 11 }]));
    assert_eq!(receiver.state.leader_status, LeaderStatus::NotSoon);

    let closed = TxIngestMsg::Closed { timestamp: 12, peer_addr: A };
    assert_eq!(send(&mut receiver, closed), (ok, vec![]));
    assert_eq!(receiver.state.connections.get(&A).unwrap().end_timestamp, 12);

    let pruned = TxIngestMsg::Pruned { timestamp: 13, peer_addr: A };
    assert_eq!(send(&mut receiver, pruned), (ok, vec![]));

    let connection = receiver.state.connections.get(&A).unwrap();
    assert_eq!(connection.end_timestamp, 13);
    assert_eq!(connection.vote_tx_count, 1);
    assert_eq!(connection.user_tx_count, 1);
    assert_eq!(connection.badfee_tx_count, 1);
    assert_eq!(connection.fee_tx_count, 1);
    assert_eq!(connection.total_fees, 5000);
}

#[test]
fn transactions_are_not_logged_unless_asked_for() {
    let mut receiver = Receiver::new(false);
    let user = TxIngestMsg::UserTx {
        timestamp: 5,
        peer_addr: A.ip,
        peer_port: A.port,
        signature: signature(1),
    };
    assert_eq!(send(&mut receiver, user), (Ok(true), vec![]));
    let fee = TxIngestMsg::Fee { timestamp: 8, signature: signature(1), fee: 5000 };
    assert_eq!(send(&mut receiver, fee), (Ok(true), vec![]));
    assert_eq!(receiver.state.connections.get(&A).unwrap().total_fees, 5000);
}

#[test]
fn fees_beyond_the_counter_are_refused() {
    let mut receiver = Receiver::new(true);
    let user = TxIngestMsg::UserTx {
        timestamp: 5,
        peer_addr: A.ip,
        peer_port: A.port,
        signature: signature(1),
    };
    send(&mut receiver, user);
    let most = TxIngestMsg::Fee { timestamp: 6, signature: signature(1), fee: u64::MAX - 1 };
    assert_eq!(send(&mut receiver, most).0, Ok(true));
    let two = TxIngestMsg::Fee { timestamp: 7, signature: signature(1), fee: 2 };
    assert_eq!(send(&mut receiver, two), (Err(Fault::Overflow), vec![]));
    let one = TxIngestMsg::Fee { timestamp: 8, signature: signature(1), fee: 1 };
    assert_eq!(send(&mut receiver, one).0, Ok(true));
    let connection = receiver.state.connections.get(&A).unwrap();
    assert_eq!(connection.total_fees, u64::MAX);
    assert_eq!(connection.fee_tx_count, 2);
    assert_eq!(connection.min_fee, 1);
}

#[test]
fn counters_have_room_or_not() {
    let vote = TxIngestMsg::VoteTx { timestamp: 4, peer_addr: A.ip, peer_port: A.port };
    let user = TxIngestMsg::UserTx {
        timestamp: 5,
        peer_addr: A.ip,
        peer_port: A.port,
        signature: signature(1),
    };
    let badfee = TxIngestMsg::BadFee { timestamp: 7, signature: signature(1) };
    let fee = TxIngestMsg::Fee { timestamp: 8, signature: signature(1), fee: 0 };
    let failed = TxIngestMsg::Failed { timestamp: 1, peer_addr: A };
    let exceeded = TxIngestMsg::Exceeded { timestamp: 2, peer_addr: A, stake: 6 };
    let begin = TxIngestMsg::BeginLeader { timestamp: 10 };

    let mut state = State::new();
    let mut log: Vec<LogLine> = Vec::new();
    for msg in [vote, user, badfee, fee, failed, exceeded, begin] {
        assert!(state.has_room(&msg));
        state.apply_at(1, false, msg, &mut log);
        assert!(state.has_room(&msg));
    }

    let mut connection = state.connections.remove(&A).unwrap();
    connection.vote_tx_count = u64::MAX;
    connection.user_tx_count = u64::MAX;
    connection.badfee_tx_count = u64::MAX;
    connection.fee_tx_count = u64::MAX;
    state.connections.insert(A, connection);
    let mut failures = state.failures.remove(&A.ip).unwrap();
    failures.count = u64::MAX;
    state.failures.insert(A.ip, failures);
    let mut exceeds = state.exceeds.remove(&A.ip).unwrap();
    exceeds.count = u64::MAX;
    state.exceeds.insert(A.ip, exceeds);
    for msg in [vote, user, badfee, fee, failed, exceeded] {
        assert!(!state.has_room(&msg));
    }
    assert!(state.has_room(&begin));
}

#[test]
fn the_periodic_work_is_done_every_ten_seconds() {
    let mut receiver = Receiver::new(false);
    let mut log: Vec<LogLine> = Vec::new();
    receiver.state.stake_at(0, 0, A, 3, &mut log);
    log.clear();
    receiver.tick_at(9_999, &vec![], &mut log);
    assert_eq!(receiver.last_log_timestamp, 0);
    assert_eq!(log, vec![]);
    receiver.tick_at(10_000, &vec![], &mut log);
    assert_eq!(receiver.last_log_timestamp, 10_000);
    assert_eq!(log, vec![Line::Inactive { timestamp: 10_000, peer: A, stake: 3 }]);
    receiver.state.votetx_at(1, A.ip, A.port);
    log.clear();
    receiver.tick_at(19_999, &vec![], &mut log);
    assert_eq!(log, vec![]);
    receiver.tick_at(20_000, &vec![20_005], &mut log);
    assert_eq!(log.len(), 1);
    assert_eq!(receiver.last_log_timestamp, 20_000);
}

#[test]
fn a_tick_reads_the_clock() {
    let mut receiver = Receiver::new(false);
    let mut log: Vec<LogLine> = Vec::new();
    receiver.state.stake_at(0, 0, A, 3, &mut log);
    log.clear();
    assert_eq!(receiver.tick(&mut log), Ok(()));
    let first = receiver.last_log_timestamp;
    assert!(first > 1_600_000_000_000);
    assert_eq!(log, vec![Line::Inactive { timestamp: first, peer: A, stake: 3 }]);
    assert_eq!(receiver.tick(&mut log), Ok(()));
    assert_eq!(receiver.last_log_timestamp, first);
    assert_eq!(log.len(), 1);
}

#[test]
fn arguments_say_where_to_listen() {
    let args = |words: &[&str]| words.iter().map(|word| word.to_string()).collect::<Vec<String>>();
    assert_eq!(
        select(&args(&["127.0.0.1", "25555"])),
        Some(Selection { show_tx: false, address: 0 })
    );
    assert_eq!(
        select(&args(&["--show_tx", "127.0.0.1", "25555"])),
        Some(Selection { show_tx: true, address: 1 })
    );
    assert_eq!(
        select(&args(&["127.0.0.1", "25555", "more"])),
        Some(Selection { show_tx: false, address: 0 })
    );
    assert_eq!(select(&args(&["--show_tx", "127.0.0.1"])), None);
    assert_eq!(select(&args(&["127.0.0.1"])), None);
    assert_eq!(select(&args(&[])), None);
    assert_eq!(select(&args(&["--show_tx", "127.0.0.1", "25555", "more"])), None);
}
