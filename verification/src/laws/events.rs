//! What holds of single events, and of events one after the other.

use crate::addr::{IpAddr, SocketAddr};
use crate::connection::{ConnectionView, Exceeds, Failures, TALLY_LIMIT, TALLY_WAIT};
use crate::leader::LeaderStatus;
use crate::log::LogView;
use crate::message::TxIngestMsg;
use crate::signature::Signature;
use crate::state::{Outcome, StateView};
use vstd::prelude::*;

verus! {

/// The state before any event is sound.
pub proof fn law_initial_sound()
    ensures
        StateView::initial().wf(),
{
}

/// A state stays sound when a connection is replaced by a sound one that has delivered no less.
proof fn lemma_with_connection_sound(
    state: StateView,
    peer: SocketAddr,
    connection: ConnectionView,
)
    requires
        state.wf(),
        connection.wf(),
        state.connections.contains_key(peer) ==> connection.user_tx_count
            >= state.connections[peer].user_tx_count,
    ensures
        state.with_connection(peer, connection).wf(),
{
}

/// Every event leaves a sound state sound.  In particular, the connection that first delivered a
/// transaction is remembered as long as the transaction is.
pub proof fn law_events_keep_sound(state: StateView, show_tx: bool, msg: TxIngestMsg, now: u64)
    requires
        state.wf(),
        state.has_room(msg),
    ensures
        state.apply(show_tx, msg, now).state.wf(),
{
    match msg {
        TxIngestMsg::Stake { timestamp, peer_addr, stake } => {
            let connection = if state.connections.contains_key(peer_addr) {
                state.connections[peer_addr].with_stake(stake)
            } else {
                ConnectionView::heard_of(Some(stake), timestamp, now)
            };
            lemma_with_connection_sound(state, peer_addr, connection);
        },
        TxIngestMsg::Pruned { timestamp, peer_addr } => {
            if state.connections.contains_key(peer_addr) {
                let connection = state.connections[peer_addr].pruned(timestamp);
                lemma_with_connection_sound(state, peer_addr, connection);
            }
        },
        TxIngestMsg::Closed { timestamp, peer_addr } => {
            if state.connections.contains_key(peer_addr) {
                let connection = state.connections[peer_addr].closed(timestamp);
                lemma_with_connection_sound(state, peer_addr, connection);
            }
        },
        TxIngestMsg::VoteTx { timestamp, peer_addr, peer_port } => {
            let peer = SocketAddr { ip: peer_addr, port: peer_port };
            lemma_with_connection_sound(state, peer, state.connection_of(peer, now).with_vote());
        },
        TxIngestMsg::UserTx { timestamp, peer_addr, peer_port, signature } => {
            let peer = SocketAddr { ip: peer_addr, port: peer_port };
            let connection = state.connection_of(peer, now).with_user_tx(
                timestamp,
                peer,
                state.sender_of(signature),
            );
            lemma_with_connection_sound(state, peer, connection);
        },
        TxIngestMsg::BadFee { timestamp, signature } => {
            if let Some(peer) = state.sender_of(signature) {
                lemma_with_connection_sound(state, peer, state.connections[peer].with_badfee());
            }
        },
        TxIngestMsg::Fee { timestamp, signature, fee } => {
            if let Some(peer) = state.sender_of(signature) {
                lemma_with_connection_sound(state, peer, state.connections[peer].with_fee(fee));
            }
        },
        _ => {},
    }
}

/// The connection that first delivered a transaction stays on record as its sender, whatever
/// events follow.
pub proof fn law_first_sender_stays(
    state: StateView,
    show_tx: bool,
    msg: TxIngestMsg,
    now: u64,
    signature: Signature,
)
    requires
        state.sender_of(signature) is Some,
    ensures
        state.apply(show_tx, msg, now).state.sender_of(signature) == state.sender_of(signature),
{
}

/// A transaction gets a sender by arriving, and in no other way.
pub proof fn law_sender_by_arrival_only(
    state: StateView,
    show_tx: bool,
    msg: TxIngestMsg,
    now: u64,
    signature: Signature,
)
    requires
        state.sender_of(signature) is None,
    ensures
        match state.apply(show_tx, msg, now).state.sender_of(signature) {
            Some(peer) => match msg {
                TxIngestMsg::UserTx { timestamp, peer_addr, peer_port, signature: arrived } => {
                    &&& arrived == signature
                    &&& peer == (SocketAddr { ip: peer_addr, port: peer_port })
                },
                _ => false,
            },
            None => true,
        },
{
}

/// Of two connections that deliver the same new transaction, the first is its sender; it is a
/// duplicate on the second.  The second names the host of the first unless they are one connection.
pub proof fn law_duplicate(
    state: StateView,
    show_tx: bool,
    signature: Signature,
    first: SocketAddr,
    first_timestamp: u64,
    first_now: u64,
    second: SocketAddr,
    second_timestamp: u64,
    second_now: u64,
)
    requires
        state.wf(),
        state.sender_of(signature) is None,
        state.room_for_user_tx(first),
        state.usertx(
            show_tx,
            first_timestamp,
            first,
            signature,
            first_now,
        ).state.room_for_user_tx(second),
    ensures
        ({
            let once = state.usertx(
                show_tx,
                first_timestamp,
                first,
                signature,
                first_now,
            ).state;
            let twice = once.usertx(
                show_tx,
                second_timestamp,
                second,
                signature,
                second_now,
            ).state;
            &&& twice.sender_of(signature) == Some(first)
            &&& once.connections[first].dup_tx_count == state.connection_of(
                first,
                first_now,
            ).dup_tx_count
            &&& twice.connections[second].dup_tx_count == once.connection_of(
                second,
                second_now,
            ).dup_tx_count + 1
            &&& twice.connections[second].dup_peers == if first == second {
                once.connection_of(second, second_now).dup_peers
            } else {
                once.connection_of(second, second_now).dup_peers.insert(first.ip)
            }
        }),
{
}

/// What becomes known of a transaction that no remembered connection delivered is ignored.
pub proof fn law_unknown_transaction_ignored(
    state: StateView,
    show_tx: bool,
    timestamp: u64,
    signature: Signature,
    fee: u64,
)
    requires
        state.sender_of(signature) is None,
    ensures
        state.badfee(signature) == state,
        state.fee(show_tx, timestamp, signature, fee) == (Outcome { state, lines: seq![] }),
{
}

/// Fees are credited to the connection that first delivered the transaction, and to no other.
pub proof fn law_fee_credited_to_sender(
    state: StateView,
    show_tx: bool,
    timestamp: u64,
    signature: Signature,
    fee: u64,
    peer: SocketAddr,
)
    requires
        state.wf(),
        state.room_for_fee(signature, fee),
        state.connections.contains_key(peer),
    ensures
        state.fee(show_tx, timestamp, signature, fee).state.connections[peer] == if state.sender_of(
            signature,
        ) == Some(peer) {
            state.connections[peer].with_fee(fee)
        } else {
            state.connections[peer]
        },
{
}

/// Does `msg` concern the connection of `peer` in `state`?
pub open spec fn concerns(state: StateView, msg: TxIngestMsg, peer: SocketAddr) -> bool {
    match msg {
        TxIngestMsg::Stake { timestamp, peer_addr, stake } => peer_addr == peer,
        TxIngestMsg::Pruned { timestamp, peer_addr } => peer_addr == peer,
        TxIngestMsg::Closed { timestamp, peer_addr } => peer_addr == peer,
        TxIngestMsg::VoteTx { timestamp, peer_addr, peer_port } => peer == (SocketAddr {
            ip: peer_addr,
            port: peer_port,
        }),
        TxIngestMsg::UserTx { timestamp, peer_addr, peer_port, signature } => peer == (SocketAddr {
            ip: peer_addr,
            port: peer_port,
        }),
        TxIngestMsg::BadFee { timestamp, signature } => state.sender_of(signature) == Some(peer),
        TxIngestMsg::Fee { timestamp, signature, fee } => state.sender_of(signature) == Some(peer),
        _ => false,
    }
}

/// An event leaves the connections alone that it does not concern.
pub proof fn law_other_connections_untouched(
    state: StateView,
    show_tx: bool,
    msg: TxIngestMsg,
    now: u64,
    peer: SocketAddr,
)
    requires
        state.wf(),
        !concerns(state, msg, peer),
    ensures
        ({
            let after = state.apply(show_tx, msg, now).state;
            &&& after.connections.contains_key(peer) == state.connections.contains_key(peer)
            &&& state.connections.contains_key(peer) ==> after.connections[peer]
                == state.connections[peer]
        }),
{
}

/// No event makes a connection forgotten: the periodic work alone does.
pub proof fn law_events_forget_no_connection(
    state: StateView,
    show_tx: bool,
    msg: TxIngestMsg,
    now: u64,
    peer: SocketAddr,
)
    requires
        state.connections.contains_key(peer),
    ensures
        state.apply(show_tx, msg, now).state.connections.contains_key(peer),
{
}

/// What no event changes of a connection that is known: whether it is partial, when it started,
/// whether it was logged as inactive and when it was last summed up.
pub proof fn law_lasting_facts(
    state: StateView,
    show_tx: bool,
    msg: TxIngestMsg,
    now: u64,
    peer: SocketAddr,
)
    requires
        state.connections.contains_key(peer),
    ensures
        ({
            let before = state.connections[peer];
            let after = state.apply(show_tx, msg, now).state.connections[peer];
            &&& after.is_partial == before.is_partial
            &&& after.start_timestamp == before.start_timestamp
            &&& after.inactive_logged == before.inactive_logged
            &&& after.log_timestamp == before.log_timestamp
        }),
{
}

/// What a connection has delivered and paid is never taken back.
pub proof fn law_counts_only_grow(
    state: StateView,
    show_tx: bool,
    msg: TxIngestMsg,
    now: u64,
    peer: SocketAddr,
)
    requires
        state.wf(),
        state.has_room(msg),
        state.connections.contains_key(peer),
    ensures
        ({
            let before = state.connections[peer];
            let after = state.apply(show_tx, msg, now).state.connections[peer];
            &&& after.vote_tx_count >= before.vote_tx_count
            &&& after.user_tx_count >= before.user_tx_count
            &&& after.dup_tx_count >= before.dup_tx_count
            &&& before.dup_peers.subset_of(after.dup_peers)
            &&& after.badfee_tx_count >= before.badfee_tx_count
            &&& after.fee_tx_count >= before.fee_tx_count
            &&& after.total_fees >= before.total_fees
            &&& after.min_fee <= before.min_fee
            &&& after.max_fee >= before.max_fee
        }),
{
}

/// Whether a connection is partial: it is not if the first thing heard of it was its start, and it
/// is if that was one of its transactions.
pub proof fn law_partial(
    state: StateView,
    show_tx: bool,
    msg: TxIngestMsg,
    now: u64,
    peer: SocketAddr,
)
    requires
        state.wf(),
        !state.connections.contains_key(peer),
        state.apply(show_tx, msg, now).state.connections.contains_key(peer),
    ensures
        state.apply(show_tx, msg, now).state.connections[peer].is_partial == !(msg is Stake),
        msg is Stake || msg is VoteTx || msg is UserTx,
{
}

/// A forwarded transaction changes nothing and logs nothing.
pub proof fn law_forwarded_ignored(
    state: StateView,
    show_tx: bool,
    timestamp: u64,
    signature: Signature,
    now: u64,
)
    ensures
        state.apply(show_tx, TxIngestMsg::Forwarded { timestamp, signature }, now) == (Outcome {
            state,
            lines: seq![],
        }),
{
}

/// Without the wish to see transactions, none is logged.
pub proof fn law_transactions_hidden(state: StateView, msg: TxIngestMsg, now: u64, line: LogView)
    requires
        state.apply(false, msg, now).lines.contains(line),
    ensures
        !(line is Tx) && !(line is Fee),
{
}

/// Whether transactions are logged makes no difference to the state, and none to what is logged
/// except about transactions: each that arrives is one line, or none.
pub proof fn law_logging_transactions_is_harmless(state: StateView, msg: TxIngestMsg, now: u64)
    ensures
        state.apply(true, msg, now).state == state.apply(false, msg, now).state,
        if msg is UserTx {
            &&& state.apply(true, msg, now).lines.len() == 1
            &&& state.apply(false, msg, now).lines.len() == 0
        } else {
            msg is Fee || state.apply(true, msg, now).lines == state.apply(false, msg, now).lines
        },
{
}

/// What time it is matters only to the events that say so.
pub proof fn law_time_matters_only_where_needed(
    state: StateView,
    show_tx: bool,
    msg: TxIngestMsg,
    one: u64,
    another: u64,
)
    requires
        state.wf(),
        !state.needs_time(msg),
    ensures
        state.apply(show_tx, msg, one) == state.apply(show_tx, msg, another),
{
}

/// A start that is reported again for a connection whose start was seen changes nothing.
pub proof fn law_repeated_start_ignored(
    state: StateView,
    timestamp: u64,
    peer: SocketAddr,
    stake: u64,
    now: u64,
)
    requires
        state.connections.contains_key(peer),
        !state.connections[peer].is_partial,
    ensures
        state.stake(timestamp, peer, stake, now).state == state,
{
    assert(state.stake(timestamp, peer, stake, now).state =~= state);
}

/// A connection that was pruned stays pruned, with the time at which it was, when the peer closes
/// it; one that was closed becomes pruned when the validator ends it too.
pub proof fn law_pruned_prevails(
    state: StateView,
    peer: SocketAddr,
    prune_timestamp: u64,
    close_timestamp: u64,
)
    requires
        state.connections.contains_key(peer),
    ensures
        state.pruned(prune_timestamp, peer).closed(close_timestamp, peer) == state.pruned(
            prune_timestamp,
            peer,
        ),
        state.closed(close_timestamp, peer).pruned(prune_timestamp, peer) == state.pruned(
            prune_timestamp,
            peer,
        ),
{
    assert(state.pruned(prune_timestamp, peer).closed(close_timestamp, peer) =~= state.pruned(
        prune_timestamp,
        peer,
    ));
    assert(state.closed(close_timestamp, peer).pruned(prune_timestamp, peer) =~= state.pruned(
        prune_timestamp,
        peer,
    ));
}

/// The end of a connection that is not known is ignored.
pub proof fn law_end_of_unknown_ignored(state: StateView, timestamp: u64, peer: SocketAddr)
    requires
        !state.connections.contains_key(peer),
    ensures
        state.pruned(timestamp, peer) == state,
        state.closed(timestamp, peer) == state,
{
}

/// The sum of `fees`.
pub open spec fn sum(fees: Seq<u64>) -> nat
    decreases fees.len(),
{
    if fees.len() == 0 {
        0
    } else {
        sum(fees.drop_last()) + fees.last() as nat
    }
}

/// `connection` after its transactions paid `fees`, one after the other.
pub open spec fn with_fees(connection: ConnectionView, fees: Seq<u64>) -> ConnectionView
    decreases fees.len(),
{
    if fees.len() == 0 {
        connection
    } else {
        with_fees(connection, fees.drop_last()).with_fee(fees.last())
    }
}

/// The fees of a connection are summed up as they were paid: their number, their sum, the lowest of
/// them and the highest.
pub proof fn law_fees_summed_up(connection: ConnectionView, fees: Seq<u64>)
    requires
        connection.fee_tx_count == 0,
        connection.wf(),
        fees.len() <= u64::MAX,
        sum(fees) <= u64::MAX,
    ensures
        ({
            let after = with_fees(connection, fees);
            &&& after.fee_tx_count == fees.len()
            &&& after.total_fees == sum(fees)
            &&& forall|i: int|
                0 <= i < fees.len() ==> after.min_fee <= #[trigger] fees[i] <= after.max_fee
            &&& fees.len() > 0 ==> fees.contains(after.min_fee) && fees.contains(after.max_fee)
        }),
    decreases fees.len(),
{
    if fees.len() > 0 {
        let rest = fees.drop_last();
        law_fees_summed_up(connection, rest);
        let before = with_fees(connection, rest);
        let after = with_fees(connection, fees);
        assert forall|i: int| 0 <= i < fees.len() implies after.min_fee <= #[trigger] fees[i]
            <= after.max_fee by {
            if i < rest.len() {
                assert(rest[i] == fees[i]);
            }
        }
        assert(fees[fees.len() - 1] == fees.last());
        if rest.len() > 0 {
            let i = choose|i: int| 0 <= i < rest.len() && rest[i] == before.min_fee;
            let j = choose|j: int| 0 <= j < rest.len() && rest[j] == before.max_fee;
            assert(fees[i] == before.min_fee && fees[j] == before.max_fee);
        }
    }
}

/// What is kept of a host after attempts at `times`, one after the other, failed.
pub open spec fn failures_after(times: Seq<u64>) -> Failures
    decreases times.len(),
{
    if times.len() == 0 {
        Failures::none()
    } else {
        failures_after(times.drop_last()).after(times.last())
    }
}

/// Failed attempts are logged a hundred at a time or every second, whichever comes first: those
/// that wait are fewer than a hundred, and the latest of them came less than a second after the
/// count was last logged or begun.
pub proof fn law_failures_logged_in_time(times: Seq<u64>)
    requires
        times.len() > 0,
        forall|i: int| 0 <= i < times.len() ==> #[trigger] times[i] > 0,
    ensures
        failures_after(times).count < TALLY_LIMIT,
        failures_after(times).log_timestamp > 0,
        times.last() < failures_after(times).log_timestamp + TALLY_WAIT,
    decreases times.len(),
{
    let rest = times.drop_last();
    assert(times[times.len() - 1] == times.last());
    if rest.len() > 0 {
        assert forall|i: int| 0 <= i < rest.len() implies #[trigger] rest[i] > 0 by {
            assert(times[i] == rest[i]);
        }
        law_failures_logged_in_time(rest);
    } else {
        assert(failures_after(rest) == Failures::none());
    }
}

/// Attempts of different hosts do not interfere, in whichever order they fail.
pub proof fn law_hosts_independent(state: StateView, a: IpAddr, at_a: u64, b: IpAddr, at_b: u64)
    requires
        a != b,
    ensures
        state.failed(a, at_a).state.failed(b, at_b).state == state.failed(b, at_b).state.failed(
            a,
            at_a,
        ).state,
        state.failed(a, at_a).state.failed(b, at_b).lines == state.failed(b, at_b).lines,
{
    assert(state.failed(a, at_a).state.failed(b, at_b).state =~= state.failed(
        b,
        at_b,
    ).state.failed(a, at_a).state);
}

/// What is kept of a host after attempts exceeded the limits at `times`, one after the other, each
/// with the stake at the same place in `stakes`.
pub open spec fn exceeds_after(times: Seq<u64>, stakes: Seq<u64>) -> Exceeds
    decreases times.len(),
{
    if times.len() == 0 {
        Exceeds::none()
    } else {
        exceeds_after(times.drop_last(), stakes).after(times.last(), stakes[times.len() - 1])
    }
}

/// Attempts beyond the limits are logged a hundred at a time or every second, whichever comes
/// first: those that wait are fewer than a hundred, and the latest of them came less than a second
/// after the count was last logged or begun.  The stake on record is the latest.
pub proof fn law_exceeds_logged_in_time(times: Seq<u64>, stakes: Seq<u64>)
    requires
        times.len() > 0,
        forall|i: int| 0 <= i < times.len() ==> #[trigger] times[i] > 0,
    ensures
        exceeds_after(times, stakes).count < TALLY_LIMIT,
        exceeds_after(times, stakes).log_timestamp > 0,
        times.last() < exceeds_after(times, stakes).log_timestamp + TALLY_WAIT,
        exceeds_after(times, stakes).stake == stakes[times.len() - 1],
    decreases times.len(),
{
    let rest = times.drop_last();
    assert(times[times.len() - 1] == times.last());
    if rest.len() > 0 {
        assert forall|i: int| 0 <= i < rest.len() implies #[trigger] rest[i] > 0 by {
            assert(times[i] == rest[i]);
        }
        law_exceeds_logged_in_time(rest, stakes);
    } else {
        assert(exceeds_after(rest, stakes) == Exceeds::none());
    }
}

/// Every transaction, and everything that becomes known of one, is a change that the next summary
/// reports.
pub proof fn law_transactions_are_changes(
    state: StateView,
    show_tx: bool,
    msg: TxIngestMsg,
    now: u64,
    peer: SocketAddr,
)
    requires
        state.wf(),
        concerns(state, msg, peer),
        msg is VoteTx || msg is UserTx || msg is BadFee || msg is Fee,
    ensures
        state.apply(show_tx, msg, now).state.connections.contains_key(peer),
        state.apply(show_tx, msg, now).state.connections[peer].changed,
{
}

/// The leader status changes with the events about the leader and with nothing else; it is that of
/// a leader after a beginning, and of no leader soon after an end.
pub proof fn law_leader_status(state: StateView, show_tx: bool, msg: TxIngestMsg, now: u64)
    ensures
        state.apply(show_tx, msg, now).state.leader_status == match msg {
            TxIngestMsg::WillBeLeader { timestamp, slots } => LeaderStatus::within(slots),
            TxIngestMsg::BeginLeader { timestamp } => LeaderStatus::Leader,
            TxIngestMsg::EndLeader { timestamp } => LeaderStatus::NotSoon,
            _ => state.leader_status,
        },
{
}

} // verus!
