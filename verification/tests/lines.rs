use txingest_receiver::addr::{IpAddr, SocketAddr};
use txingest_receiver::clock::{from_elapsed, now_millis, passed, to_millis};
use txingest_receiver::leader::LeaderStatus;
use txingest_receiver::log::{columns, Action, Column, Line, LogLine, Summary};
use txingest_receiver::signature::Signature;
use txingest_receiver::table::Table;

const HOST: IpAddr = IpAddr::V4(0x0A000001);
const A: SocketAddr = SocketAddr { ip: HOST, port: 8001 };

fn ending_in(last: u8) -> Signature {
    let mut bytes = [0u8; 64];
    bytes[63] = last;
    Signature { bytes }
}

#[test]
fn signatures_are_shown_in_base_58() {
    // A leading zero byte is the digit 1; 57 and 58 are the digits z and 21.
    assert_eq!(ending_in(0).text(), "1".repeat(64));
    assert_eq!(ending_in(1).text(), format!("{}2", "1".repeat(63)));
    assert_eq!(ending_in(57).text(), format!("{}z", "1".repeat(63)));
    assert_eq!(ending_in(58).text(), format!("{}21", "1".repeat(63)));
}

#[test]
fn a_signature_is_shown_in_its_lines() {
    let tx: LogLine = Line::Tx {
        timestamp: 5,
        peer: A,
        signature: ending_in(9),
        leader: LeaderStatus::Leader,
    };
    let text = format!("{}A", "1".repeat(63));
    assert_eq!(
        columns(&tx),
        vec![
            Column::Number(5),
            Column::Word("tx"),
            Column::Peer(A),
            Column::Text(text.clone()),
            Column::Word("leader"),
        ]
    );
    let fee: LogLine = Line::Fee { timestamp: 6, peer: A, signature: ending_in(9), fee: 5000 };
    assert_eq!(
        columns(&fee),
        vec![
            Column::Number(6),
            Column::Word("fee"),
            Column::Peer(A),
            Column::Text(text),
            Column::Number(5000),
        ]
    );
}

#[test]
fn lines_about_attempts() {
    let failed: LogLine = Line::Failed { timestamp: 1, host: HOST, count: 3 };
    assert_eq!(
        columns(&failed),
        vec![Column::Number(1), Column::Word("failed"), Column::Ip(HOST), Column::Number(3)]
    );
    let exceeded: LogLine = Line::Exceeded { timestamp: 1, host: HOST, stake: 2, count: 3 };
    assert_eq!(
        columns(&exceeded),
        vec![
            Column::Number(1),
            Column::Word("exceeded"),
            Column::Ip(HOST),
            Column::Number(2),
            Column::Number(3),
        ]
    );
}

#[test]
fn lines_about_connections() {
    let started: LogLine = Line::Started { timestamp: 1, peer: A, stake: 2 };
    assert_eq!(
        columns(&started),
        vec![Column::Number(1), Column::Word("started"), Column::Peer(A), Column::Number(2)]
    );
    let inactive: LogLine = Line::Inactive { timestamp: 1, peer: A, stake: 2 };
    assert_eq!(
        columns(&inactive),
        vec![Column::Number(1), Column::Word("inactive"), Column::Peer(A), Column::Number(2)]
    );
    let dups: LogLine =
        Line::Dups { timestamp: 1, peer: A, others: vec![IpAddr::V4(7), IpAddr::V6(8)] };
    assert_eq!(
        columns(&dups),
        vec![
            Column::Number(1),
            Column::Word("dups"),
            Column::Peer(A),
            Column::Ip(IpAddr::V4(7)),
            Column::Ip(IpAddr::V6(8)),
        ]
    );
}

#[test]
fn a_summary_has_fourteen_columns() {
    let mut summary = Summary {
        stake: 4,
        duration: 5,
        num_dup_tx: 6,
        num_vote_tx: 7,
        num_user_tx: 8,
        num_badfee_tx: 9,
        num_fee_tx: 10,
        min_fee: 11,
        max_fee: 12,
        total_fees: 13,
        is_partial: true,
    };
    for (action, verb) in
        [(Action::Active, "active"), (Action::Dropped, "dropped"), (Action::Closed, "closed")]
    {
        let line: LogLine = Line::Summed { timestamp: 1, action, peer: A, summary };
        let mut expected =
            vec![Column::Number(1), Column::Word(verb), Column::Peer(A)];
        for n in 4..14 {
            expected.push(Column::Number(n));
        }
        expected.push(Column::Word("p"));
        assert_eq!(columns(&line), expected);
    }
    summary.is_partial = false;
    let line: LogLine = Line::Summed { timestamp: 1, action: Action::Active, peer: A, summary };
    assert_eq!(columns(&line).len(), 14);
    assert_eq!(columns(&line)[13], Column::Word("c"));
}

#[test]
fn lines_about_the_leader() {
    let upcoming: LogLine = Line::LeaderUpcoming { timestamp: 1, slots: 200 };
    assert_eq!(
        columns(&upcoming),
        vec![Column::Number(1), Column::Word("leader_upcoming"), Column::Number(200)]
    );
    let begin: LogLine = Line::LeaderBegin { timestamp: 2 };
    assert_eq!(columns(&begin), vec![Column::Number(2), Column::Word("leader_begin")]);
    let end: LogLine = Line::LeaderEnd { timestamp: 3 };
    assert_eq!(columns(&end), vec![Column::Number(3), Column::Word("leader_end")]);
}

#[test]
fn slots_until_the_validator_is_leader() {
    let word = |slots: u8| LeaderStatus::from_slots(slots).text();
    assert_eq!(word(0), "very");
    assert_eq!(word(2), "very");
    assert_eq!(word(3), "soon");
    assert_eq!(word(20), "soon");
    assert_eq!(word(21), "kinda");
    assert_eq!(word(200), "kinda");
    assert_eq!(word(201), "not");
    assert_eq!(word(255), "not");
    assert_eq!(LeaderStatus::Leader.text(), "leader");
    assert_eq!(LeaderStatus::default(), LeaderStatus::NotSoon);
}

#[test]
fn milliseconds_are_rounded_down() {
    assert_eq!(to_millis(0, 0), 0);
    assert_eq!(to_millis(0, 999_999), 0);
    assert_eq!(to_millis(0, 1_000_000), 1);
    assert_eq!(to_millis(12, 345_678_901), 12_345);
    // More milliseconds than 64 bits hold.
    assert_eq!(to_millis(18_446_744_073_709_551, 615_000_000), u64::MAX);
    assert_eq!(to_millis(18_446_744_073_709_551, 616_000_000), 0);
}

#[test]
fn a_clock_before_the_epoch_shows_nothing() {
    assert_eq!(from_elapsed(None), None);
    assert_eq!(from_elapsed(Some((0, 0))), Some(0));
    assert_eq!(from_elapsed(Some((1_700_000_000, 123_999_999))), Some(1_700_000_000_123));
}

#[test]
fn the_clock_runs() {
    let first = now_millis().unwrap();
    let second = now_millis().unwrap();
    assert!(first > 1_600_000_000_000);
    assert!(second >= first);
}

#[test]
fn waits_are_over_in_time() {
    assert!(!passed(10_999, 1000, 10_000));
    assert!(passed(11_000, 1000, 10_000));
    assert!(!passed(999, 1000, 0));
    assert!(passed(1000, 1000, 0));
    assert!(!passed(u64::MAX, u64::MAX, 1));
    assert!(passed(u64::MAX, 0, u64::MAX));
}

#[test]
fn a_table_is_walked_in_the_order_of_its_keys() {
    let mut table: Table<SocketAddr, u8> = Table::new();
    assert!(table.is_empty());
    let keys = vec![
        SocketAddr::new(IpAddr::V4(1), 5),
        SocketAddr::new(IpAddr::V4(1), 60_000),
        SocketAddr::new(IpAddr::V4(u32::MAX), 0),
        SocketAddr::new(IpAddr::V6(0), 7),
        SocketAddr::new(IpAddr::V6(u128::MAX), 1),
    ];
    for i in [3usize, 0, 4, 2, 1] {
        table.insert(keys[i], i as u8);
    }
    assert!(!table.is_empty());
    assert_eq!(table.keys(), keys);
    assert_eq!(table.get(&keys[2]).copied(), Some(2));
    table.insert(keys[2], 9);
    assert_eq!(table.get(&keys[2]).copied(), Some(9));
    assert_eq!(table.remove(&keys[2]), Some(9));
    assert_eq!(table.remove(&keys[2]), None);
    assert!(!table.contains_key(&keys[2]));
    assert!(table.contains_key(&keys[3]));
}

#[test]
fn signatures_are_told_apart_by_every_byte() {
    let mut table: Table<Signature, usize> = Table::new();
    for i in 0..64 {
        let mut bytes = [0u8; 64];
        bytes[i] = i as u8 + 1;
        table.insert(Signature { bytes }, i);
    }
    assert_eq!(table.keys().len(), 64);
    for i in 0..64 {
        let mut bytes = [0u8; 64];
        bytes[i] = i as u8 + 1;
        assert_eq!(table.get(&Signature { bytes }).copied(), Some(i));
        assert!(table.keys().contains(&Signature { bytes }));
    }
}
