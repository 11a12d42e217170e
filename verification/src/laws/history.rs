//! What is on record about a connection, in terms of all that has happened to it.

use crate::addr::SocketAddr;
use crate::connection::ConnectionView;
use crate::laws::runs::Step;
use crate::laws::{effects, events, runs, schedule};
use crate::message::TxIngestMsg;
use crate::state::StateView;
use vstd::prelude::*;

verus! {

/// How many vote transactions `peer` delivers in `step`.
pub open spec fn votes(step: Step, peer: SocketAddr) -> nat {
    match step {
        Step::Handled {
            show_tx,
            msg: TxIngestMsg::VoteTx { timestamp, peer_addr, peer_port },
            now,
        } => {
            if peer_addr == peer.ip && peer_port == peer.port {
                1
            } else {
                0
            }
        },
        _ => 0,
    }
}

/// How many user transactions `peer` delivers in `step`.
pub open spec fn arrivals(step: Step, peer: SocketAddr) -> nat {
    match step {
        Step::Handled {
            show_tx,
            msg: TxIngestMsg::UserTx { timestamp, peer_addr, peer_port, signature },
            now,
        } => {
            if peer_addr == peer.ip && peer_port == peer.port {
                1
            } else {
                0
            }
        },
        _ => 0,
    }
}

/// How many user transactions that had a sender in `state` `peer` delivers in `step`.
pub open spec fn repeats(state: StateView, step: Step, peer: SocketAddr) -> nat {
    match step {
        Step::Handled {
            show_tx,
            msg: TxIngestMsg::UserTx { timestamp, peer_addr, peer_port, signature },
            now,
        } => {
            if peer_addr == peer.ip && peer_port == peer.port && state.txs.contains_key(signature) {
                1
            } else {
                0
            }
        },
        _ => 0,
    }
}

/// How many transactions whose sender in `state` is `peer` turn out unable to pay in `step`.
pub open spec fn bad_fees(state: StateView, step: Step, peer: SocketAddr) -> nat {
    match step {
        Step::Handled { show_tx, msg: TxIngestMsg::BadFee { timestamp, signature }, now } => {
            if state.txs.contains_key(signature) && state.txs[signature] == peer {
                1
            } else {
                0
            }
        },
        _ => 0,
    }
}

/// The fee that a transaction whose sender in `state` is `peer` pays in `step`, if one does.
pub open spec fn fee_paid(state: StateView, step: Step, peer: SocketAddr) -> Option<u64> {
    match step {
        Step::Handled { show_tx, msg: TxIngestMsg::Fee { timestamp, signature, fee }, now } => {
            if state.txs.contains_key(signature) && state.txs[signature] == peer {
                Some(fee)
            } else {
                None
            }
        },
        _ => None,
    }
}

/// What happens to a connection in the course of some steps.
pub struct History {
    pub votes: nat,
    pub arrivals: nat,
    pub repeats: nat,
    pub bad_fees: nat,
    /// The fees that were paid, one after the other.
    pub fees: Seq<u64>,
    /// When the latest user transaction arrived.
    pub latest: Option<u64>,
}

/// What happens to the connection of `peer` in the course of `steps` from `state` on.
pub open spec fn history(state: StateView, steps: Seq<Step>, peer: SocketAddr) -> History
    decreases steps.len(),
{
    if steps.len() == 0 {
        History { votes: 0, arrivals: 0, repeats: 0, bad_fees: 0, fees: seq![], latest: None }
    } else {
        let earlier = history(state, steps.drop_last(), peer);
        let before = runs::run(state, steps.drop_last()).state;
        let step = steps.last();
        History {
            votes: earlier.votes + votes(step, peer),
            arrivals: earlier.arrivals + arrivals(step, peer),
            repeats: earlier.repeats + repeats(before, step, peer),
            bad_fees: earlier.bad_fees + bad_fees(before, step, peer),
            fees: match fee_paid(before, step, peer) {
                Some(fee) => earlier.fees.push(fee),
                None => earlier.fees,
            },
            latest: match step {
                Step::Handled {
                    show_tx,
                    msg: TxIngestMsg::UserTx { timestamp, peer_addr, peer_port, signature },
                    now,
                } if peer_addr == peer.ip && peer_port == peer.port => Some(timestamp),
                _ => earlier.latest,
            },
        }
    }
}

/// What is on record about the connection of `peer` before anything happens to it in the course of
/// steps from `state` on.
pub open spec fn at_first(state: StateView, peer: SocketAddr) -> ConnectionView {
    if state.connections.contains_key(peer) {
        state.connections[peer]
    } else {
        effects::unheard_of(0, 0)
    }
}

/// `after` is what `before` becomes by `history`.
pub open spec fn adds_up(before: ConnectionView, after: ConnectionView, history: History) -> bool {
    &&& after.vote_tx_count == before.vote_tx_count + history.votes
    &&& after.user_tx_count == before.user_tx_count + history.arrivals
    &&& after.dup_tx_count == before.dup_tx_count + history.repeats
    &&& after.badfee_tx_count == before.badfee_tx_count + history.bad_fees
    &&& after.fee_tx_count == before.fee_tx_count + history.fees.len()
    &&& after.total_fees == before.total_fees + events::sum(history.fees)
    &&& after.min_fee <= before.min_fee
    &&& after.max_fee >= before.max_fee
    &&& forall|i: int|
        0 <= i < history.fees.len() ==> after.min_fee <= #[trigger] history.fees[i]
            <= after.max_fee
    &&& after.min_fee == before.min_fee || history.fees.contains(after.min_fee)
    &&& after.max_fee == before.max_fee || history.fees.contains(after.max_fee)
    &&& after.user_tx_timestamp == match history.latest {
        Some(timestamp) => timestamp,
        None => before.user_tx_timestamp,
    }
}

/// What one event adds to the record of a connection.
proof fn lemma_event_adds(
    state: StateView,
    show_tx: bool,
    msg: TxIngestMsg,
    now: u64,
    peer: SocketAddr,
)
    requires
        state.wf(),
        state.has_room(msg),
    ensures
        ({
            let step = Step::Handled { show_tx, msg, now };
            let after = state.apply(show_tx, msg, now).state;
            let before = effects::so_far(state, peer, now);
            let connection = after.connections[peer];
            &&& state.connections.contains_key(peer) ==> after.connections.contains_key(peer)
            &&& if after.connections.contains_key(peer) {
                &&& connection.vote_tx_count == before.vote_tx_count + votes(step, peer)
                &&& connection.user_tx_count == before.user_tx_count + arrivals(step, peer)
                &&& connection.dup_tx_count == before.dup_tx_count + repeats(state, step, peer)
                &&& connection.badfee_tx_count == before.badfee_tx_count + bad_fees(
                    state,
                    step,
                    peer,
                )
                &&& match fee_paid(state, step, peer) {
                    Some(fee) => {
                        &&& connection.fee_tx_count == before.fee_tx_count + 1
                        &&& connection.total_fees == before.total_fees + fee
                        &&& connection.min_fee <= fee <= connection.max_fee
                        &&& connection.min_fee <= before.min_fee
                        &&& connection.max_fee >= before.max_fee
                        &&& connection.min_fee == fee || connection.min_fee == before.min_fee
                        &&& connection.max_fee == fee || connection.max_fee == before.max_fee
                    },
                    None => {
                        &&& connection.fee_tx_count == before.fee_tx_count
                        &&& connection.total_fees == before.total_fees
                        &&& connection.min_fee == before.min_fee
                        &&& connection.max_fee == before.max_fee
                    },
                }
                &&& connection.user_tx_timestamp == match msg {
                    TxIngestMsg::UserTx { timestamp, peer_addr, peer_port, signature } if peer_addr
                        == peer.ip && peer_port == peer.port => timestamp,
                    _ => before.user_tx_timestamp,
                }
            } else {
                &&& votes(step, peer) == 0
                &&& arrivals(step, peer) == 0
                &&& repeats(state, step, peer) == 0
                &&& bad_fees(state, step, peer) == 0
                &&& fee_paid(state, step, peer) is None
            }
        }),
{
    match msg {
        TxIngestMsg::Stake { timestamp, peer_addr, stake } => {
            effects::law_start(state, show_tx, timestamp, peer_addr, stake, now);
        },
        TxIngestMsg::Pruned { timestamp, peer_addr } => {
            effects::law_ended_by_validator(state, show_tx, timestamp, peer_addr, now);
        },
        TxIngestMsg::Closed { timestamp, peer_addr } => {
            effects::law_ended_by_peer(state, show_tx, timestamp, peer_addr, now);
        },
        TxIngestMsg::VoteTx { timestamp, peer_addr, peer_port } => {
            let sender = SocketAddr { ip: peer_addr, port: peer_port };
            effects::law_vote(state, show_tx, timestamp, sender, now);
        },
        TxIngestMsg::UserTx { timestamp, peer_addr, peer_port, signature } => {
            let sender = SocketAddr { ip: peer_addr, port: peer_port };
            effects::law_arrival(state, show_tx, timestamp, sender, signature, now);
        },
        TxIngestMsg::BadFee { timestamp, signature } => {
            effects::law_bad_fee(state, show_tx, timestamp, signature, now);
        },
        TxIngestMsg::Fee { timestamp, signature, fee } => {
            effects::law_fee(state, show_tx, timestamp, signature, fee, now);
        },
        _ => {},
    }
}

/// What is on record about a connection is what has happened to it since it was heard of: each count
/// is the number of the messages about it, the fees are those that its transactions paid, and the
/// time of its latest user transaction is the one that the latest message gave.
pub proof fn law_record_adds_up(state: StateView, steps: Seq<Step>, peer: SocketAddr)
    requires
        state.wf(),
        runs::can_run(state, steps),
        runs::never_forgotten(state, steps, peer),
        runs::run(state, steps).state.connections.contains_key(peer),
    ensures
        adds_up(
            at_first(state, peer),
            runs::run(state, steps).state.connections[peer],
            history(state, steps, peer),
        ),
{
    lemma_record_adds_up(state, steps, peer);
}

/// The periodic work changes none of what `adds_up` speaks of.
proof fn lemma_sweep_adds_nothing(
    state: StateView,
    now: u64,
    stamps: Seq<u64>,
    peer: SocketAddr,
)
    requires
        state.wf(),
        state.periodic(now, stamps).state.connections.contains_key(peer),
    ensures
        state.connections.contains_key(peer),
        ({
            let before = state.connections[peer];
            let after = state.periodic(now, stamps).state.connections[peer];
            after == (ConnectionView {
                changed: after.changed,
                log_timestamp: after.log_timestamp,
                inactive_logged: after.inactive_logged,
                ..before
            })
        }),
{
    let _ = crate::sweep::lemma_kept_from(state.connections, now, stamps, peer);
}

proof fn lemma_record_adds_up(state: StateView, steps: Seq<Step>, peer: SocketAddr)
    requires
        state.wf(),
        runs::can_run(state, steps),
        runs::never_forgotten(state, steps, peer),
    ensures
        ({
            let after = runs::run(state, steps).state;
            let happened = history(state, steps, peer);
            if after.connections.contains_key(peer) {
                adds_up(at_first(state, peer), after.connections[peer], happened)
            } else {
                &&& !state.connections.contains_key(peer)
                &&& happened.votes == 0
                &&& happened.arrivals == 0
                &&& happened.repeats == 0
                &&& happened.bad_fees == 0
                &&& happened.fees.len() == 0
                &&& happened.latest is None
            }
        }),
    decreases steps.len(),
{
    if steps.len() > 0 {
        let rest = steps.drop_last();
        lemma_record_adds_up(state, rest, peer);
        runs::law_always_sound(state, rest);
        let before = runs::run(state, rest).state;
        let earlier = history(state, rest, peer);
        let happened = history(state, steps, peer);
        let after = runs::run(state, steps).state;
        match steps.last() {
            Step::Handled { show_tx, msg, now } => {
                lemma_event_adds(before, show_tx, msg, now, peer);
                match fee_paid(before, steps.last(), peer) {
                    Some(fee) => {
                        lemma_one_more_fee(
                            at_first(state, peer),
                            effects::so_far(before, peer, now),
                            after.connections[peer],
                            earlier.fees,
                            fee,
                        );
                    },
                    None => {},
                }
            },
            Step::Swept { now, stamps } => {
                if after.connections.contains_key(peer) {
                    lemma_sweep_adds_nothing(before, now, stamps, peer);
                }
            },
        }
    }
}

/// What one more fee does to the fees that were paid.
proof fn lemma_one_more_fee(
    first: ConnectionView,
    before: ConnectionView,
    after: ConnectionView,
    fees: Seq<u64>,
    fee: u64,
)
    requires
        before.min_fee <= first.min_fee,
        before.max_fee >= first.max_fee,
        forall|i: int|
            0 <= i < fees.len() ==> before.min_fee <= #[trigger] fees[i] <= before.max_fee,
        before.min_fee == first.min_fee || fees.contains(before.min_fee),
        before.max_fee == first.max_fee || fees.contains(before.max_fee),
        after.min_fee <= fee <= after.max_fee,
        after.min_fee <= before.min_fee,
        after.max_fee >= before.max_fee,
        after.min_fee == fee || after.min_fee == before.min_fee,
        after.max_fee == fee || after.max_fee == before.max_fee,
    ensures
        events::sum(fees.push(fee)) == events::sum(fees) + fee,
        forall|i: int|
            0 <= i < fees.push(fee).len() ==> after.min_fee <= #[trigger] fees.push(fee)[i]
                <= after.max_fee,
        after.min_fee == first.min_fee || fees.push(fee).contains(after.min_fee),
        after.max_fee == first.max_fee || fees.push(fee).contains(after.max_fee),
{
    let more = fees.push(fee);
    assert(more.drop_last() =~= fees);
    assert(more[fees.len() as int] == fee);
    if fees.contains(before.min_fee) {
        let i = choose|i: int| 0 <= i < fees.len() && fees[i] == before.min_fee;
        assert(more[i] == before.min_fee);
    }
    if fees.contains(before.max_fee) {
        let i = choose|i: int| 0 <= i < fees.len() && fees[i] == before.max_fee;
        assert(more[i] == before.max_fee);
    }
}

/// An ended connection that has delivered user transactions is forgotten by periodic work at `now`
/// if and only if that comes thirty seconds or more after the time which the latest message about
/// one of them gave.
pub proof fn law_forgotten_after_latest_arrival(
    state: StateView,
    steps: Seq<Step>,
    peer: SocketAddr,
    now: u64,
    stamps: Seq<u64>,
)
    requires
        state.wf(),
        runs::can_run(state, steps),
        runs::never_forgotten(state, steps, peer),
        runs::run(state, steps).state.connections.contains_key(peer),
        !(runs::run(state, steps).state.connections[peer].state is Open),
        history(state, steps, peer).latest is Some,
        stamps.len() >= runs::run(state, steps).state.stamps_needed(now),
    ensures
        !runs::run(state, steps).state.periodic(now, stamps).state.connections.contains_key(peer)
            <==> now >= history(state, steps, peer).latest->0 + 30_000,
{
    law_record_adds_up(state, steps, peer);
    lemma_latest_counts(state, steps, peer);
    runs::law_always_sound(state, steps);
    let before = runs::run(state, steps).state;
    if now >= before.connections[peer].user_tx_timestamp + 30_000 {
        schedule::law_ended_connection_forgotten(before, now, stamps, peer);
    } else {
        schedule::law_ended_connection_waits_for_fees(before, now, stamps, peer);
    }
}

/// A latest user transaction is one that was counted.
proof fn lemma_latest_counts(state: StateView, steps: Seq<Step>, peer: SocketAddr)
    ensures
        history(state, steps, peer).latest is Some <==> history(state, steps, peer).arrivals > 0,
    decreases steps.len(),
{
    if steps.len() > 0 {
        lemma_latest_counts(state, steps.drop_last(), peer);
    }
}

} // verus!
