//! What the periodic work logs and forgets, in terms of what is on record and of the time.

use crate::addr::{IpAddr, SocketAddr};
use crate::connection::{ConnectionState, ConnectionView, Tally, Verdict};
use crate::laws::{filters, sweeps};
use crate::log::{Action, Line, LogView, Summary};
use crate::receiver::ReceiverView;
use crate::signature::Signature;
use crate::state::StateView;
use crate::{sweep, table};
use vstd::prelude::*;

verus! {

/// `summary` reports what is on record about `connection` at `timestamp`: an open connection has
/// lasted until then, another one until its end, and no fee is a lowest fee of 0.
pub open spec fn reports(summary: Summary, connection: ConnectionView, timestamp: u64) -> bool {
    let end = if connection.state is Open {
        timestamp
    } else {
        connection.end_timestamp
    };
    &&& summary.stake == connection.stake
    &&& summary.duration == if end >= connection.start_timestamp {
        end - connection.start_timestamp
    } else {
        0
    }
    &&& summary.num_dup_tx == connection.dup_tx_count
    &&& summary.num_vote_tx == connection.vote_tx_count
    &&& summary.num_user_tx == connection.user_tx_count
    &&& summary.num_badfee_tx == connection.badfee_tx_count
    &&& summary.num_fee_tx == connection.fee_tx_count
    &&& summary.min_fee == if connection.min_fee == u64::MAX {
        0
    } else {
        connection.min_fee
    }
    &&& summary.max_fee == connection.max_fee
    &&& summary.total_fees == connection.total_fees
    &&& summary.is_partial == connection.is_partial
}

/// A summary reports what is on record, and leaves all of it but that there are changes and when the
/// connection was last summed up.
pub proof fn law_summary(connection: ConnectionView, timestamp: u64)
    ensures
        reports(connection.summary(timestamp), connection, timestamp),
        connection.summed_up(timestamp) == (ConnectionView {
            changed: false,
            log_timestamp: timestamp,
            ..connection
        }),
{
}

/// What is done about a connection depends on who ended it, if anyone did, on what has changed or
/// been delivered, and on the time that has gone by.
pub proof fn law_verdict(connection: ConnectionView, now: u64)
    requires
        connection.wf(),
    ensures
        ({
            let verdict = connection.verdict(now);
            let open = connection.state is Open;
            let silent = connection.vote_tx_count == 0 && connection.user_tx_count == 0;
            let over = connection.user_tx_count == 0 || now >= connection.user_tx_timestamp
                + 30_000;
            &&& verdict == Verdict::Active <==> open && connection.changed && now
                >= connection.log_timestamp + 10_000
            &&& verdict == Verdict::Inactive <==> open && silent && !connection.inactive_logged
                && now >= connection.start_timestamp + 10_000
            &&& verdict == Verdict::End(Action::Dropped) <==> connection.state is Pruned && over
            &&& verdict == Verdict::End(Action::Closed) <==> connection.state is Closed && over
            &&& verdict != Verdict::End(Action::Active)
        }),
{
}

/// `line` sums up the connection of `peer` as `action`, at a time that the clock showed.
pub open spec fn sums_up(
    line: LogView,
    action: Action,
    peer: SocketAddr,
    connection: ConnectionView,
    stamps: Seq<u64>,
) -> bool {
    match line {
        Line::Summed { timestamp, action: shown, peer: named, summary } => {
            &&& shown == action
            &&& named == peer
            &&& stamps.contains(timestamp)
            &&& reports(summary, connection, timestamp)
        },
        _ => false,
    }
}

/// `line` names, at a time that the clock showed, the hosts whose transactions were sent again on
/// the connection of `peer`, each of them once.
pub open spec fn names_repeated(
    line: LogView,
    peer: SocketAddr,
    connection: ConnectionView,
    stamps: Seq<u64>,
) -> bool {
    match line {
        Line::Dups { timestamp, peer: named, others } => {
            &&& named == peer
            &&& stamps.contains(timestamp)
            &&& table::lists(others, connection.dup_peers)
        },
        _ => false,
    }
}

/// An open connection that has changed is summed up as active by every periodic work that comes ten
/// seconds or more after it was last summed up or first heard of: that is the one line about it.
/// From then on there are no changes to sum up, and the wait begins anew.
pub proof fn law_changes_are_summed_up(
    state: StateView,
    now: u64,
    stamps: Seq<u64>,
    peer: SocketAddr,
)
    requires
        state.wf(),
        stamps.len() >= state.stamps_needed(now),
        state.connections.contains_key(peer),
        state.connections[peer].state is Open,
        state.connections[peer].changed,
        now >= state.connections[peer].log_timestamp + 10_000,
    ensures
        ({
            let after = state.periodic(now, stamps);
            let lines = sweeps::about(after.lines, peer);
            &&& lines.len() == 1
            &&& sums_up(lines[0], Action::Active, peer, state.connections[peer], stamps)
            &&& after.state.connections.contains_key(peer)
            &&& after.state.connections[peer] == (ConnectionView {
                changed: false,
                log_timestamp: crate::laws::lines::timestamp_of(lines[0]),
                ..state.connections[peer]
            })
        }),
{
    let at = sweeps::law_lines_about_connection(state, now, stamps, peer);
    assert(stamps.contains(stamps[at]));
}

/// An open connection that has delivered nothing is logged as inactive, with its stake, by the first
/// periodic work that comes ten seconds or more after its start: that is the one line about it.
pub proof fn law_silence_is_logged(
    state: StateView,
    now: u64,
    stamps: Seq<u64>,
    peer: SocketAddr,
)
    requires
        state.wf(),
        stamps.len() >= state.stamps_needed(now),
        state.connections.contains_key(peer),
        state.connections[peer].state is Open,
        state.connections[peer].vote_tx_count == 0,
        state.connections[peer].user_tx_count == 0,
        !state.connections[peer].inactive_logged,
        now >= state.connections[peer].start_timestamp + 10_000,
    ensures
        ({
            let after = state.periodic(now, stamps);
            &&& sweeps::about(after.lines, peer) == seq![
                Line::<Seq<IpAddr>>::Inactive {
                    timestamp: now,
                    peer,
                    stake: state.connections[peer].stake,
                },
            ]
            &&& after.state.connections.contains_key(peer)
            &&& after.state.connections[peer] == (ConnectionView {
                inactive_logged: true,
                ..state.connections[peer]
            })
        }),
{
    let at = sweeps::law_lines_about_connection(state, now, stamps, peer);
}

/// An open connection is left alone, and nothing is logged about it, if nothing has changed or ten
/// seconds have not gone by since it was last summed up, and if it has delivered something, was
/// logged as inactive, or ten seconds have not gone by since its start.
pub proof fn law_open_connection_left_alone(
    state: StateView,
    now: u64,
    stamps: Seq<u64>,
    peer: SocketAddr,
)
    requires
        state.wf(),
        stamps.len() >= state.stamps_needed(now),
        state.connections.contains_key(peer),
        state.connections[peer].state is Open,
        !state.connections[peer].changed || now < state.connections[peer].log_timestamp + 10_000,
        state.connections[peer].vote_tx_count > 0 || state.connections[peer].user_tx_count > 0
            || state.connections[peer].inactive_logged || now
            < state.connections[peer].start_timestamp + 10_000,
    ensures
        ({
            let after = state.periodic(now, stamps);
            &&& sweeps::about(after.lines, peer).len() == 0
            &&& after.state.connections.contains_key(peer)
            &&& after.state.connections[peer] == state.connections[peer]
        }),
{
    let at = sweeps::law_lines_about_connection(state, now, stamps, peer);
}

/// An ended connection is kept as it is, and nothing is logged about it, for thirty seconds from its
/// latest user transaction on, if it has one.
pub proof fn law_ended_connection_waits_for_fees(
    state: StateView,
    now: u64,
    stamps: Seq<u64>,
    peer: SocketAddr,
)
    requires
        state.wf(),
        stamps.len() >= state.stamps_needed(now),
        state.connections.contains_key(peer),
        !(state.connections[peer].state is Open),
        state.connections[peer].user_tx_count > 0,
        now < state.connections[peer].user_tx_timestamp + 30_000,
    ensures
        ({
            let after = state.periodic(now, stamps);
            &&& sweeps::about(after.lines, peer).len() == 0
            &&& after.state.connections.contains_key(peer)
            &&& after.state.connections[peer] == state.connections[peer]
        }),
{
    let at = sweeps::law_lines_about_connection(state, now, stamps, peer);
}

/// An ended connection without user transactions, or whose latest is thirty seconds old, is summed
/// up as dropped or closed, depending on who ended it, and forgotten.  If it repeated transactions
/// of other connections, their hosts are named next.
pub proof fn law_ended_connection_forgotten(
    state: StateView,
    now: u64,
    stamps: Seq<u64>,
    peer: SocketAddr,
)
    requires
        state.wf(),
        stamps.len() >= state.stamps_needed(now),
        state.connections.contains_key(peer),
        !(state.connections[peer].state is Open),
        state.connections[peer].user_tx_count == 0 || now
            >= state.connections[peer].user_tx_timestamp + 30_000,
    ensures
        ({
            let connection = state.connections[peer];
            let after = state.periodic(now, stamps);
            let lines = sweeps::about(after.lines, peer);
            let action = match connection.state {
                ConnectionState::Pruned => Action::Dropped,
                _ => Action::Closed,
            };
            &&& !after.state.connections.contains_key(peer)
            &&& lines.len() == if connection.dup_peers.len() > 0 {
                2nat
            } else {
                1nat
            }
            &&& sums_up(lines[0], action, peer, connection, stamps)
            &&& connection.dup_peers.len() > 0 ==> names_repeated(
                lines[1],
                peer,
                connection,
                stamps,
            )
        }),
{
    let at = sweeps::law_lines_about_connection(state, now, stamps, peer);
    let connection = state.connections[peer];
    assert(connection.wf());
    assert(stamps.contains(stamps[at]));
    if connection.dup_peers.len() > 0 {
        assert(connection.dup_peers != Set::<IpAddr>::empty());
        assert(stamps.contains(stamps[at + 1]));
        table::lemma_in_order(connection.dup_peers);
    } else {
        assert(connection.dup_peers =~= Set::<IpAddr>::empty());
    }
}

/// Nothing is logged about a connection that is not known, and the periodic work makes none known.
pub proof fn law_unknown_connection_stays_unknown(
    state: StateView,
    now: u64,
    stamps: Seq<u64>,
    peer: SocketAddr,
)
    requires
        state.wf(),
        stamps.len() >= state.stamps_needed(now),
        !state.connections.contains_key(peer),
    ensures
        sweeps::about(state.periodic(now, stamps).lines, peer).len() == 0,
        !state.periodic(now, stamps).state.connections.contains_key(peer),
{
    let _ = sweeps::law_lines_about_connection(state, now, stamps, peer);
    let _ = sweep::lemma_kept_from(state.connections, now, stamps, peer);
}

/// A transaction is forgotten with the connection that first delivered it, and no sooner; the
/// periodic work does not touch the leader status.
pub proof fn law_transactions_last_with_their_connection(
    state: StateView,
    now: u64,
    stamps: Seq<u64>,
    signature: Signature,
)
    requires
        state.wf(),
    ensures
        ({
            let after = state.periodic(now, stamps).state;
            &&& after.leader_status == state.leader_status
            &&& after.txs.contains_key(signature) <==> state.txs.contains_key(signature)
                && after.connections.contains_key(state.txs[signature])
            &&& after.txs.contains_key(signature) ==> after.txs[signature] == state.txs[signature]
        }),
{
}

/// The lines of `lines` that report failed attempts of `ip`.
pub open spec fn failed_lines(lines: Seq<LogView>, ip: IpAddr) -> Seq<LogView> {
    lines.filter(
        |line: LogView|
            match line {
                Line::Failed { timestamp, host, count } => host == ip,
                _ => false,
            },
    )
}

/// The lines of `lines` that report attempts of `ip` beyond the limits.
pub open spec fn exceeded_lines(lines: Seq<LogView>, ip: IpAddr) -> Seq<LogView> {
    lines.filter(
        |line: LogView|
            match line {
                Line::Exceeded { timestamp, host, stake, count } => host == ip,
                _ => false,
            },
    )
}

/// Of the lines that are logged of hosts that are forgotten, those that `p` picks, which picks those
/// of `ip` alone.
proof fn lemma_lines_of_host<T: Tally>(
    tallies: Map<IpAddr, T>,
    ips: Seq<IpAddr>,
    now: u64,
    ip: IpAddr,
    p: spec_fn(LogView) -> bool,
    n: int,
)
    requires
        table::lists(ips, tallies.dom()),
        0 <= n <= ips.len(),
        forall|tally: T, host: IpAddr| p(#[trigger] tally.line(now, host)) == (host == ip),
    ensures
        sweep::tallies_logged(tallies, ips.take(n), now).filter(p) == if ips.take(n).contains(ip)
            && sweep::left_over(tallies, now)(ip) {
            seq![tallies[ip].line(now, ip)]
        } else {
            seq![]
        },
    decreases n,
{
    let due = sweep::left_over(tallies, now);
    let line = sweep::tally_line(tallies, now);
    let lines = sweep::tallies_logged(tallies, ips.take(n), now);
    if n == 0 {
        assert(ips.take(0) =~= Seq::<IpAddr>::empty());
        reveal(Seq::filter);
        assert(lines =~= Seq::<LogView>::empty());
        assert(lines.filter(p) =~= seq![]);
    } else {
        lemma_lines_of_host(tallies, ips, now, ip, p, n - 1);
        sweep::lemma_filter_map_step(ips, n - 1, due, line);
        sweep::lemma_take_one_more(ips, n - 1);
        sweep::lemma_listed_once(ips, tallies.dom(), n - 1);
        let before = sweep::tallies_logged(tallies, ips.take(n - 1), now);
        if due(ips[n - 1]) {
            let last = line(ips[n - 1]);
            assert(lines =~= before + seq![last]);
            Seq::filter_distributes_over_add(before, seq![last], p);
            filters::lemma_filter_one(last, p);
            assert(lines.filter(p) =~= if ips[n - 1] == ip {
                seq![last]
            } else {
                before.filter(p)
            });
        }
    }
}

/// A host is forgotten ten seconds after its failed attempts were last logged, or their count begun,
/// and not sooner.  Those that wait then are logged in one line; else nothing is.
pub proof fn law_failing_host_forgotten(
    state: StateView,
    now: u64,
    stamps: Seq<u64>,
    ip: IpAddr,
)
    requires
        state.wf(),
    ensures
        ({
            let after = state.periodic(now, stamps);
            let known = state.failures.contains_key(ip);
            let kept = state.failures[ip];
            let over = now >= kept.log_timestamp + 10_000;
            &&& after.state.failures.contains_key(ip) <==> known && !over
            &&& known && !over ==> after.state.failures[ip] == kept
            &&& failed_lines(after.lines, ip) == if known && over && kept.count > 0 {
                seq![
                    Line::<Seq<IpAddr>>::Failed { timestamp: now, host: ip, count: kept.count },
                ]
            } else {
                seq![]
            }
        }),
{
    let p = |line: LogView|
        match line {
            Line::Failed { timestamp, host, count } => host == ip,
            _ => false,
        };
    let (failures, exceeds, rest) = lemma_three_parts(state, now, stamps);
    let ips = table::in_order(state.failures.dom());
    table::lemma_in_order(state.failures.dom());
    lemma_lines_of_host(state.failures, ips, now, ip, p, ips.len() as int);
    assert(ips.take(ips.len() as int) =~= ips);
    assert(state.failures.dom().contains(ip) == state.failures.contains_key(ip));
    Seq::filter_distributes_over_add(failures + exceeds, rest, p);
    Seq::filter_distributes_over_add(failures, exceeds, p);
    filters::lemma_filter_none(exceeds, p);
    filters::lemma_filter_none(rest, p);
    assert(failed_lines(state.periodic(now, stamps).lines, ip) =~= failures.filter(p));
}

/// A host is forgotten ten seconds after its attempts beyond the limits were last logged, or their
/// count begun, and not sooner.  Those that wait then are logged in one line; else nothing is.
pub proof fn law_exceeding_host_forgotten(
    state: StateView,
    now: u64,
    stamps: Seq<u64>,
    ip: IpAddr,
)
    requires
        state.wf(),
    ensures
        ({
            let after = state.periodic(now, stamps);
            let known = state.exceeds.contains_key(ip);
            let kept = state.exceeds[ip];
            let over = now >= kept.log_timestamp + 10_000;
            &&& after.state.exceeds.contains_key(ip) <==> known && !over
            &&& known && !over ==> after.state.exceeds[ip] == kept
            &&& exceeded_lines(after.lines, ip) == if known && over && kept.count > 0 {
                seq![
                    Line::<Seq<IpAddr>>::Exceeded {
                        timestamp: now,
                        host: ip,
                        stake: kept.stake,
                        count: kept.count,
                    },
                ]
            } else {
                seq![]
            }
        }),
{
    let p = |line: LogView|
        match line {
            Line::Exceeded { timestamp, host, stake, count } => host == ip,
            _ => false,
        };
    let (failures, exceeds, rest) = lemma_three_parts(state, now, stamps);
    let ips = table::in_order(state.exceeds.dom());
    table::lemma_in_order(state.exceeds.dom());
    lemma_lines_of_host(state.exceeds, ips, now, ip, p, ips.len() as int);
    assert(ips.take(ips.len() as int) =~= ips);
    assert(state.exceeds.dom().contains(ip) == state.exceeds.contains_key(ip));
    Seq::filter_distributes_over_add(failures + exceeds, rest, p);
    Seq::filter_distributes_over_add(failures, exceeds, p);
    filters::lemma_filter_none(failures, p);
    filters::lemma_filter_none(rest, p);
    assert(exceeded_lines(state.periodic(now, stamps).lines, ip) =~= exceeds.filter(p));
}

/// What the periodic work logs about connections is about connections.
proof fn lemma_connection_lines(
    connections: Map<SocketAddr, ConnectionView>,
    peers: Seq<SocketAddr>,
    now: u64,
    stamps: Seq<u64>,
)
    ensures
        ({
            let lines = sweep::connections_logged(connections, peers, now, stamps);
            forall|i: int|
                0 <= i < lines.len() ==> {
                    ||| #[trigger] lines[i] is Inactive
                    ||| lines[i] is Summed
                    ||| lines[i] is Dups
                }
        }),
    decreases peers.len(),
{
    if peers.len() > 0 {
        lemma_connection_lines(connections, peers.drop_last(), now, stamps);
    }
}

/// The parts of what the periodic work logs.
proof fn lemma_three_parts(state: StateView, now: u64, stamps: Seq<u64>) -> (parts: (
    Seq<LogView>,
    Seq<LogView>,
    Seq<LogView>,
))
    ensures
        state.periodic(now, stamps).lines == parts.0 + parts.1 + parts.2,
        parts.0 == sweep::tallies_logged(
            state.failures,
            table::in_order(state.failures.dom()),
            now,
        ),
        parts.1 == sweep::tallies_logged(
            state.exceeds,
            table::in_order(state.exceeds.dom()),
            now,
        ),
        forall|i: int| 0 <= i < parts.0.len() ==> #[trigger] parts.0[i] is Failed,
        forall|i: int| 0 <= i < parts.1.len() ==> #[trigger] parts.1[i] is Exceeded,
        forall|i: int|
            0 <= i < parts.2.len() ==> {
                ||| #[trigger] parts.2[i] is Inactive
                ||| parts.2[i] is Summed
                ||| parts.2[i] is Dups
            },
{
    let peers = table::in_order(state.connections.dom());
    lemma_connection_lines(state.connections, peers, now, stamps);
    (
        sweep::tallies_logged(state.failures, table::in_order(state.failures.dom()), now),
        sweep::tallies_logged(state.exceeds, table::in_order(state.exceeds.dom()), now),
        sweep::connections_logged(state.connections, peers, now, stamps),
    )
}

/// The periodic work logs failed attempts first, then attempts beyond the limits, then connections,
/// and nothing else.
pub proof fn law_order_of_lines(state: StateView, now: u64, stamps: Seq<u64>) -> (parts: (
    Seq<LogView>,
    Seq<LogView>,
    Seq<LogView>,
))
    ensures
        state.periodic(now, stamps).lines == parts.0 + parts.1 + parts.2,
        forall|i: int| 0 <= i < parts.0.len() ==> #[trigger] parts.0[i] is Failed,
        forall|i: int| 0 <= i < parts.1.len() ==> #[trigger] parts.1[i] is Exceeded,
        forall|i: int|
            0 <= i < parts.2.len() ==> {
                ||| #[trigger] parts.2[i] is Inactive
                ||| parts.2[i] is Summed
                ||| parts.2[i] is Dups
            },
{
    lemma_three_parts(state, now, stamps)
}

/// The periodic work is done by a turn at `now`, and put on record with that time, if and only if ten
/// seconds or more have gone by since it was last done; else a turn does nothing.
pub proof fn law_turn(receiver: ReceiverView, now: u64, stamps: Seq<u64>)
    ensures
        ({
            let after = receiver.ticked(now, stamps);
            &&& after.show_tx == receiver.show_tx
            &&& if now >= receiver.last_log_timestamp + 10_000 {
                &&& after.last_log_timestamp == now
                &&& after.state == receiver.state.periodic(now, stamps).state
                &&& receiver.ticked_lines(now, stamps) == receiver.state.periodic(
                    now,
                    stamps,
                ).lines
                &&& receiver.stamps_needed(now) == receiver.state.stamps_needed(now)
            } else {
                &&& after == receiver
                &&& receiver.ticked_lines(now, stamps).len() == 0
                &&& receiver.stamps_needed(now) == 0
            }
        }),
{
}

} // verus!
