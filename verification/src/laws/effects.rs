//! What each event does, in terms of what is on record before it and after it.

use crate::addr::{IpAddr, SocketAddr};
use crate::connection::{ConnectionState, ConnectionView, Exceeds, Failures};
use crate::leader::LeaderStatus;
use crate::log::{Line, LogView};
use crate::message::TxIngestMsg;
use crate::signature::Signature;
use crate::state::{State, StateView};
use vstd::prelude::*;

verus! {

/// Before the first event there is nothing on record, and the validator is not leader soon.
pub proof fn law_nothing_at_first(ip: IpAddr, peer: SocketAddr, signature: Signature)
    ensures
        ({
            let state = StateView::initial();
            &&& state.leader_status == LeaderStatus::NotSoon
            &&& !state.failures.contains_key(ip)
            &&& !state.exceeds.contains_key(ip)
            &&& !state.connections.contains_key(peer)
            &&& !state.txs.contains_key(signature)
        }),
{
}

/// What is on record about a state and its connections is what they hold.
pub proof fn law_records_are_complete(state: State, peer: SocketAddr)
    requires
        state.connections@.contains_key(peer),
    ensures
        state@.leader_status == state.leader_status,
        state@.failures == state.failures@,
        state@.exceeds == state.exceeds@,
        state@.txs == state.txs@,
        state@.connections.dom() == state.connections@.dom(),
        ({
            let connection = state.connections@[peer];
            state@.connections[peer] == (ConnectionView {
                is_partial: connection.is_partial,
                stake: connection.stake,
                state: connection.state,
                start_timestamp: connection.start_timestamp,
                end_timestamp: connection.end_timestamp,
                user_tx_timestamp: connection.user_tx_timestamp,
                inactive_logged: connection.inactive_logged,
                log_timestamp: connection.log_timestamp,
                changed: connection.changed,
                dup_tx_count: connection.dup_tx_count,
                dup_peers: connection.dup_peers@.dom(),
                vote_tx_count: connection.vote_tx_count,
                user_tx_count: connection.user_tx_count,
                badfee_tx_count: connection.badfee_tx_count,
                fee_tx_count: connection.fee_tx_count,
                min_fee: connection.min_fee,
                max_fee: connection.max_fee,
                total_fees: connection.total_fees,
            })
        }),
{
    assert(state@.connections.dom() =~= state.connections@.dom());
}

/// A message is handled as the event that it reports.
pub proof fn law_messages_are_events(
    state: StateView,
    show_tx: bool,
    now: u64,
    timestamp: u64,
    peer: SocketAddr,
    signature: Signature,
    amount: u64,
    slots: u8,
)
    ensures
        state.apply(show_tx, TxIngestMsg::Failed { timestamp, peer_addr: peer }, now)
            == state.failed(peer.ip, now),
        state.apply(
            show_tx,
            TxIngestMsg::Exceeded { timestamp, peer_addr: peer, stake: amount },
            now,
        ) == state.exceeded(peer.ip, amount, now),
        state.apply(
            show_tx,
            TxIngestMsg::Stake { timestamp, peer_addr: peer, stake: amount },
            now,
        ) == state.stake(timestamp, peer, amount, now),
        state.apply(show_tx, TxIngestMsg::Pruned { timestamp, peer_addr: peer }, now).state
            == state.pruned(timestamp, peer),
        state.apply(show_tx, TxIngestMsg::Closed { timestamp, peer_addr: peer }, now).state
            == state.closed(timestamp, peer),
        state.apply(
            show_tx,
            TxIngestMsg::VoteTx { timestamp, peer_addr: peer.ip, peer_port: peer.port },
            now,
        ).state == state.votetx(peer, now),
        state.apply(
            show_tx,
            TxIngestMsg::UserTx { timestamp, peer_addr: peer.ip, peer_port: peer.port, signature },
            now,
        ) == state.usertx(show_tx, timestamp, peer, signature, now),
        state.apply(show_tx, TxIngestMsg::BadFee { timestamp, signature }, now).state
            == state.badfee(signature),
        state.apply(show_tx, TxIngestMsg::Fee { timestamp, signature, fee: amount }, now)
            == state.fee(show_tx, timestamp, signature, amount),
        state.apply(show_tx, TxIngestMsg::WillBeLeader { timestamp, slots }, now)
            == state.will_be_leader(timestamp, slots),
        state.apply(show_tx, TxIngestMsg::BeginLeader { timestamp }, now) == state.begin_leader(
            timestamp,
        ),
        state.apply(show_tx, TxIngestMsg::EndLeader { timestamp }, now) == state.end_leader(
            timestamp,
        ),
{
}

/// A message is taken in unless a counter that it adds to is full.
pub proof fn law_room(state: StateView, msg: TxIngestMsg)
    ensures
        state.has_room(msg) <==> match msg {
            TxIngestMsg::Failed { timestamp, peer_addr } => !(state.failures.contains_key(
                peer_addr.ip,
            ) && state.failures[peer_addr.ip].count == u64::MAX),
            TxIngestMsg::Exceeded { timestamp, peer_addr, stake } => !(state.exceeds.contains_key(
                peer_addr.ip,
            ) && state.exceeds[peer_addr.ip].count == u64::MAX),
            TxIngestMsg::VoteTx { timestamp, peer_addr, peer_port } => {
                let peer = SocketAddr { ip: peer_addr, port: peer_port };
                !(state.connections.contains_key(peer) && state.connections[peer].vote_tx_count
                    == u64::MAX)
            },
            TxIngestMsg::UserTx { timestamp, peer_addr, peer_port, signature } => {
                let peer = SocketAddr { ip: peer_addr, port: peer_port };
                !(state.connections.contains_key(peer) && state.connections[peer].user_tx_count
                    == u64::MAX)
            },
            TxIngestMsg::BadFee { timestamp, signature } => !(state.txs.contains_key(signature)
                && state.connections[state.txs[signature]].badfee_tx_count == u64::MAX),
            TxIngestMsg::Fee { timestamp, signature, fee } => !(state.txs.contains_key(signature)
                && (state.connections[state.txs[signature]].fee_tx_count == u64::MAX
                || state.connections[state.txs[signature]].total_fees + fee > u64::MAX)),
            _ => true,
        },
{
}

/// The time matters to attempts to connect, and to whatever makes a connection known.
pub proof fn law_time_needed(state: StateView, msg: TxIngestMsg)
    ensures
        state.needs_time(msg) <==> match msg {
            TxIngestMsg::Failed { timestamp, peer_addr } => true,
            TxIngestMsg::Exceeded { timestamp, peer_addr, stake } => true,
            TxIngestMsg::Stake { timestamp, peer_addr, stake } => !state.connections.contains_key(
                peer_addr,
            ),
            TxIngestMsg::VoteTx { timestamp, peer_addr, peer_port } =>
                !state.connections.contains_key(SocketAddr { ip: peer_addr, port: peer_port }),
            TxIngestMsg::UserTx { timestamp, peer_addr, peer_port, signature } =>
                !state.connections.contains_key(SocketAddr { ip: peer_addr, port: peer_port }),
            _ => false,
        },
{
}

/// What is logged when the clock fails is what is logged whatever it shows.
pub proof fn law_logged_before_the_clock_is_read(
    state: StateView,
    show_tx: bool,
    msg: TxIngestMsg,
    now: u64,
)
    requires
        state.needs_time(msg),
    ensures
        state.logged_first(show_tx, msg) == if msg is Failed || msg is Exceeded {
            Seq::<LogView>::empty()
        } else {
            state.apply(show_tx, msg, now).lines
        },
{
}

/// Apart from connections, what is on record is the same.
pub open spec fn same_but_connections(before: StateView, after: StateView) -> bool {
    &&& after.leader_status == before.leader_status
    &&& after.failures == before.failures
    &&& after.exceeds == before.exceeds
    &&& after.txs == before.txs
}

/// Apart from the connection of `peer`, which is known afterwards, what is on record is the same.
pub open spec fn same_but_connection(
    before: StateView,
    after: StateView,
    peer: SocketAddr,
) -> bool {
    &&& same_but_connections(before, after)
    &&& after.connections.contains_key(peer)
    &&& after.connections == before.connections.insert(peer, after.connections[peer])
}

/// What is on record about a connection of which nothing is known but when it was heard of.
pub open spec fn unheard_of(start_timestamp: u64, log_timestamp: u64) -> ConnectionView {
    ConnectionView {
        is_partial: true,
        stake: 0,
        state: ConnectionState::Open,
        start_timestamp,
        end_timestamp: 0,
        user_tx_timestamp: 0,
        inactive_logged: false,
        log_timestamp,
        changed: false,
        dup_tx_count: 0,
        dup_peers: Set::empty(),
        vote_tx_count: 0,
        user_tx_count: 0,
        badfee_tx_count: 0,
        fee_tx_count: 0,
        min_fee: u64::MAX,
        max_fee: 0,
        total_fees: 0,
    }
}

/// What is on record about the connection of `peer`, or would be if it were heard of at `now`.
pub open spec fn so_far(state: StateView, peer: SocketAddr, now: u64) -> ConnectionView {
    if state.connections.contains_key(peer) {
        state.connections[peer]
    } else {
        unheard_of(now, now)
    }
}

/// A connection that has just been heard of is open, has delivered and paid nothing, and is partial
/// unless its stake is known.
pub proof fn law_heard_of(stake: Option<u64>, start_timestamp: u64, log_timestamp: u64)
    ensures
        ConnectionView::heard_of(stake, start_timestamp, log_timestamp) == match stake {
            Some(stake) => ConnectionView {
                is_partial: false,
                stake,
                ..unheard_of(start_timestamp, log_timestamp)
            },
            None => unheard_of(start_timestamp, log_timestamp),
        },
{
}

/// What a transaction, or what becomes known of one, adds to the record of a connection.
pub proof fn law_connection_counts(
    connection: ConnectionView,
    timestamp: u64,
    peer: SocketAddr,
    sender: Option<SocketAddr>,
    fee: u64,
)
    requires
        connection.vote_tx_count < u64::MAX,
        connection.user_tx_count < u64::MAX,
        connection.dup_tx_count < u64::MAX,
        connection.badfee_tx_count < u64::MAX,
        connection.fee_tx_count < u64::MAX,
        connection.total_fees + fee <= u64::MAX,
    ensures
        ({
            let voted = connection.with_vote();
            &&& voted.vote_tx_count == connection.vote_tx_count + 1
            &&& voted == (ConnectionView {
                vote_tx_count: voted.vote_tx_count,
                changed: true,
                ..connection
            })
        }),
        ({
            let refused = connection.with_badfee();
            &&& refused.badfee_tx_count == connection.badfee_tx_count + 1
            &&& refused == (ConnectionView {
                badfee_tx_count: refused.badfee_tx_count,
                changed: true,
                ..connection
            })
        }),
        ({
            let paid = connection.with_fee(fee);
            &&& paid.fee_tx_count == connection.fee_tx_count + 1
            &&& paid.total_fees == connection.total_fees + fee
            &&& paid.min_fee <= fee <= paid.max_fee
            &&& paid.min_fee <= connection.min_fee
            &&& paid.max_fee >= connection.max_fee
            &&& paid.min_fee == fee || paid.min_fee == connection.min_fee
            &&& paid.max_fee == fee || paid.max_fee == connection.max_fee
            &&& paid == (ConnectionView {
                fee_tx_count: paid.fee_tx_count,
                min_fee: paid.min_fee,
                max_fee: paid.max_fee,
                total_fees: paid.total_fees,
                changed: true,
                ..connection
            })
        }),
        ({
            let sent = connection.with_user_tx(timestamp, peer, sender);
            &&& sent.user_tx_count == connection.user_tx_count + 1
            &&& sent.dup_tx_count == connection.dup_tx_count + if sender is Some {
                1int
            } else {
                0int
            }
            &&& sent.dup_peers == if sender is Some && sender->0 != peer {
                connection.dup_peers.insert(sender->0.ip)
            } else {
                connection.dup_peers
            }
            &&& sent == (ConnectionView {
                user_tx_timestamp: timestamp,
                user_tx_count: sent.user_tx_count,
                dup_tx_count: sent.dup_tx_count,
                dup_peers: sent.dup_peers,
                changed: true,
                ..connection
            })
        }),
{
}

/// What an end or a start adds to the record of a connection.
pub proof fn law_connection_ends(connection: ConnectionView, timestamp: u64, stake: u64)
    ensures
        connection.pruned(timestamp) == (ConnectionView {
            state: ConnectionState::Pruned,
            end_timestamp: timestamp,
            ..connection
        }),
        connection.closed(timestamp) == (match connection.state {
            ConnectionState::Open => ConnectionView {
                state: ConnectionState::Closed,
                end_timestamp: timestamp,
                ..connection
            },
            _ => connection,
        }),
        connection.with_stake(stake).stake == if connection.is_partial {
            stake
        } else {
            connection.stake
        },
        connection.with_stake(stake) == (ConnectionView {
            stake: connection.with_stake(stake).stake,
            ..connection
        }),
{
}

/// A start is logged.  It makes an unknown connection known and complete, and gives a partial one
/// its stake; it changes nothing else.
pub proof fn law_start(
    state: StateView,
    show_tx: bool,
    timestamp: u64,
    peer: SocketAddr,
    stake: u64,
    now: u64,
)
    ensures
        ({
            let msg = TxIngestMsg::Stake { timestamp, peer_addr: peer, stake };
            let after = state.apply(show_tx, msg, now);
            &&& after.lines == seq![Line::<Seq<IpAddr>>::Started { timestamp, peer, stake }]
            &&& same_but_connection(state, after.state, peer)
            &&& after.state.connections[peer] == if !state.connections.contains_key(peer) {
                ConnectionView { is_partial: false, stake, ..unheard_of(timestamp, now) }
            } else if state.connections[peer].is_partial {
                ConnectionView { stake, ..state.connections[peer] }
            } else {
                state.connections[peer]
            }
        }),
{
    let msg = TxIngestMsg::Stake { timestamp, peer_addr: peer, stake };
    let after = state.apply(show_tx, msg, now).state;
    assert(after.connections =~= state.connections.insert(peer, after.connections[peer]));
}

/// When the validator ends a known connection, that and the time of it are put on record, whether
/// or not the remote peer had ended it before; of an unknown connection nothing is.
pub proof fn law_ended_by_validator(
    state: StateView,
    show_tx: bool,
    timestamp: u64,
    peer: SocketAddr,
    now: u64,
)
    ensures
        ({
            let msg = TxIngestMsg::Pruned { timestamp, peer_addr: peer };
            let after = state.apply(show_tx, msg, now);
            &&& after.lines.len() == 0
            &&& if state.connections.contains_key(peer) {
                &&& same_but_connection(state, after.state, peer)
                &&& after.state.connections[peer] == (ConnectionView {
                    state: ConnectionState::Pruned,
                    end_timestamp: timestamp,
                    ..state.connections[peer]
                })
            } else {
                after.state == state
            }
        }),
{
}

/// When the remote peer ends a known connection that is open, that and the time of it are put on
/// record; otherwise nothing is.
pub proof fn law_ended_by_peer(
    state: StateView,
    show_tx: bool,
    timestamp: u64,
    peer: SocketAddr,
    now: u64,
)
    ensures
        ({
            let msg = TxIngestMsg::Closed { timestamp, peer_addr: peer };
            let after = state.apply(show_tx, msg, now);
            &&& after.lines.len() == 0
            &&& if state.connections.contains_key(peer) && state.connections[peer].state is Open {
                &&& same_but_connection(state, after.state, peer)
                &&& after.state.connections[peer] == (ConnectionView {
                    state: ConnectionState::Closed,
                    end_timestamp: timestamp,
                    ..state.connections[peer]
                })
            } else {
                after.state == state
            }
        }),
{
    let msg = TxIngestMsg::Closed { timestamp, peer_addr: peer };
    let after = state.apply(show_tx, msg, now).state;
    if state.connections.contains_key(peer) && !(state.connections[peer].state is Open) {
        assert(after =~= state);
    }
}

/// A vote transaction is counted once, on the connection that delivered it.
pub proof fn law_vote(
    state: StateView,
    show_tx: bool,
    timestamp: u64,
    peer: SocketAddr,
    now: u64,
)
    requires
        state.has_room(
            TxIngestMsg::VoteTx { timestamp, peer_addr: peer.ip, peer_port: peer.port },
        ),
    ensures
        ({
            let msg = TxIngestMsg::VoteTx {
                timestamp,
                peer_addr: peer.ip,
                peer_port: peer.port,
            };
            let after = state.apply(show_tx, msg, now);
            let connection = after.state.connections[peer];
            let before = so_far(state, peer, now);
            &&& after.lines.len() == 0
            &&& same_but_connection(state, after.state, peer)
            &&& connection.vote_tx_count == before.vote_tx_count + 1
            &&& connection == (ConnectionView {
                vote_tx_count: connection.vote_tx_count,
                changed: true,
                ..before
            })
        }),
{
}

/// A user transaction is counted once, on the connection that delivered it, together with the time
/// of it, whatever was delivered before.  If it has a sender already it is a duplicate, and the
/// sender's host is noted unless the sender is this connection; else this connection is its sender.
pub proof fn law_arrival(
    state: StateView,
    show_tx: bool,
    timestamp: u64,
    peer: SocketAddr,
    signature: Signature,
    now: u64,
)
    requires
        state.wf(),
        state.has_room(
            TxIngestMsg::UserTx { timestamp, peer_addr: peer.ip, peer_port: peer.port, signature },
        ),
    ensures
        ({
            let msg = TxIngestMsg::UserTx {
                timestamp,
                peer_addr: peer.ip,
                peer_port: peer.port,
                signature,
            };
            let after = state.apply(show_tx, msg, now);
            let connection = after.state.connections[peer];
            let before = so_far(state, peer, now);
            let duplicate = state.txs.contains_key(signature);
            let sender = state.txs[signature];
            &&& after.lines == if show_tx {
                seq![
                    Line::<Seq<IpAddr>>::Tx {
                        timestamp,
                        peer,
                        signature,
                        leader: state.leader_status,
                    },
                ]
            } else {
                Seq::<LogView>::empty()
            }
            &&& same_but_connection(StateView { txs: after.state.txs, ..state }, after.state, peer)
            &&& after.state.txs == if duplicate {
                state.txs
            } else {
                state.txs.insert(signature, peer)
            }
            &&& connection.user_tx_timestamp == timestamp
            &&& connection.user_tx_count == before.user_tx_count + 1
            &&& connection.dup_tx_count == before.dup_tx_count + if duplicate {
                1int
            } else {
                0int
            }
            &&& connection.dup_peers == if duplicate && sender != peer {
                before.dup_peers.insert(sender.ip)
            } else {
                before.dup_peers
            }
            &&& connection == (ConnectionView {
                user_tx_timestamp: timestamp,
                user_tx_count: connection.user_tx_count,
                dup_tx_count: connection.dup_tx_count,
                dup_peers: connection.dup_peers,
                changed: true,
                ..before
            })
        }),
{
}

/// That a transaction could not pay its fee is counted once, on the connection that first delivered
/// it, and ignored if there is none.
pub proof fn law_bad_fee(
    state: StateView,
    show_tx: bool,
    timestamp: u64,
    signature: Signature,
    now: u64,
)
    requires
        state.wf(),
        state.has_room(TxIngestMsg::BadFee { timestamp, signature }),
    ensures
        ({
            let msg = TxIngestMsg::BadFee { timestamp, signature };
            let after = state.apply(show_tx, msg, now);
            let sender = state.txs[signature];
            let connection = after.state.connections[sender];
            let before = state.connections[sender];
            &&& after.lines.len() == 0
            &&& if state.txs.contains_key(signature) {
                &&& same_but_connection(state, after.state, sender)
                &&& connection.badfee_tx_count == before.badfee_tx_count + 1
                &&& connection == (ConnectionView {
                    badfee_tx_count: connection.badfee_tx_count,
                    changed: true,
                    ..before
                })
            } else {
                after.state == state
            }
        }),
{
}

/// A fee is counted once, on the connection that first delivered the transaction: it adds to the
/// total, and becomes the lowest or the highest if it is lower or higher than those before.  It is
/// ignored if there is no such connection.
pub proof fn law_fee(
    state: StateView,
    show_tx: bool,
    timestamp: u64,
    signature: Signature,
    fee: u64,
    now: u64,
)
    requires
        state.wf(),
        state.has_room(TxIngestMsg::Fee { timestamp, signature, fee }),
    ensures
        ({
            let msg = TxIngestMsg::Fee { timestamp, signature, fee };
            let after = state.apply(show_tx, msg, now);
            let sender = state.txs[signature];
            let connection = after.state.connections[sender];
            let before = state.connections[sender];
            if state.txs.contains_key(signature) {
                &&& after.lines == if show_tx {
                    seq![Line::<Seq<IpAddr>>::Fee { timestamp, peer: sender, signature, fee }]
                } else {
                    Seq::<LogView>::empty()
                }
                &&& same_but_connection(state, after.state, sender)
                &&& connection.fee_tx_count == before.fee_tx_count + 1
                &&& connection.total_fees == before.total_fees + fee
                &&& connection.min_fee <= fee <= connection.max_fee
                &&& connection.min_fee <= before.min_fee
                &&& connection.max_fee >= before.max_fee
                &&& connection.min_fee == fee || connection.min_fee == before.min_fee
                &&& connection.max_fee == fee || connection.max_fee == before.max_fee
                &&& connection == (ConnectionView {
                    fee_tx_count: connection.fee_tx_count,
                    min_fee: connection.min_fee,
                    max_fee: connection.max_fee,
                    total_fees: connection.total_fees,
                    changed: true,
                    ..before
                })
            } else {
                after.state == state && after.lines.len() == 0
            }
        }),
{
}

/// The first failed attempt of a host begins its count.  A later one is logged together with those
/// that wait if it makes a hundred of them or comes a second or more after the count was begun or
/// last logged; else it waits too.
pub proof fn law_failed_attempt(
    state: StateView,
    show_tx: bool,
    timestamp: u64,
    peer: SocketAddr,
    now: u64,
)
    requires
        state.has_room(TxIngestMsg::Failed { timestamp, peer_addr: peer }),
    ensures
        ({
            let after = state.apply(
                show_tx,
                TxIngestMsg::Failed { timestamp, peer_addr: peer },
                now,
            );
            let begun = state.failures.contains_key(peer.ip)
                && state.failures[peer.ip].log_timestamp > 0;
            let earlier = state.failures[peer.ip].log_timestamp;
            let count = if state.failures.contains_key(peer.ip) {
                state.failures[peer.ip].count + 1
            } else {
                1
            };
            let kept = after.state.failures[peer.ip];
            &&& after.state == (StateView { failures: after.state.failures, ..state })
            &&& after.state.failures.contains_key(peer.ip)
            &&& after.state.failures == state.failures.insert(peer.ip, kept)
            &&& if begun && (count == 100 || now >= earlier + 1000) {
                &&& after.lines == seq![
                    Line::<Seq<IpAddr>>::Failed {
                        timestamp: now,
                        host: peer.ip,
                        count: count as u64,
                    },
                ]
                &&& kept == (Failures { log_timestamp: now, changed: false, count: 0 })
            } else {
                &&& after.lines.len() == 0
                &&& kept.count == count
                &&& kept.changed
                &&& kept.log_timestamp == if begun {
                    earlier
                } else {
                    now
                }
            }
        }),
{
    let after = state.apply(show_tx, TxIngestMsg::Failed { timestamp, peer_addr: peer }, now);
    assert(after.state.failures =~= state.failures.insert(
        peer.ip,
        after.state.failures[peer.ip],
    ));
}

/// The first attempt of a host beyond the limits begins its count.  A later one is logged together
/// with those that wait if it makes a hundred of them or comes a second or more after the count was
/// begun or last logged; else it waits too.  The stake on record is that of the latest.
pub proof fn law_exceeding_attempt(
    state: StateView,
    show_tx: bool,
    timestamp: u64,
    peer: SocketAddr,
    stake: u64,
    now: u64,
)
    requires
        state.has_room(TxIngestMsg::Exceeded { timestamp, peer_addr: peer, stake }),
    ensures
        ({
            let after = state.apply(
                show_tx,
                TxIngestMsg::Exceeded { timestamp, peer_addr: peer, stake },
                now,
            );
            let begun = state.exceeds.contains_key(peer.ip) && state.exceeds[peer.ip].log_timestamp
                > 0;
            let earlier = state.exceeds[peer.ip].log_timestamp;
            let count = if state.exceeds.contains_key(peer.ip) {
                state.exceeds[peer.ip].count + 1
            } else {
                1
            };
            let kept = after.state.exceeds[peer.ip];
            &&& after.state == (StateView { exceeds: after.state.exceeds, ..state })
            &&& after.state.exceeds.contains_key(peer.ip)
            &&& after.state.exceeds == state.exceeds.insert(peer.ip, kept)
            &&& kept.stake == stake
            &&& if begun && (count == 100 || now >= earlier + 1000) {
                &&& after.lines == seq![
                    Line::<Seq<IpAddr>>::Exceeded {
                        timestamp: now,
                        host: peer.ip,
                        stake,
                        count: count as u64,
                    },
                ]
                &&& kept == (Exceeds { log_timestamp: now, stake, changed: false, count: 0 })
            } else {
                &&& after.lines.len() == 0
                &&& kept.count == count
                &&& kept.changed
                &&& kept.log_timestamp == if begun {
                    earlier
                } else {
                    now
                }
            }
        }),
{
    let after = state.apply(
        show_tx,
        TxIngestMsg::Exceeded { timestamp, peer_addr: peer, stake },
        now,
    );
    assert(after.state.exceeds =~= state.exceeds.insert(peer.ip, after.state.exceeds[peer.ip]));
}

/// Events about the leader are logged and change the leader status, nothing else.
pub proof fn law_leader_events(
    state: StateView,
    show_tx: bool,
    timestamp: u64,
    slots: u8,
    now: u64,
)
    ensures
        ({
            let upcoming = state.apply(
                show_tx,
                TxIngestMsg::WillBeLeader { timestamp, slots },
                now,
            );
            let begun = state.apply(show_tx, TxIngestMsg::BeginLeader { timestamp }, now);
            let ended = state.apply(show_tx, TxIngestMsg::EndLeader { timestamp }, now);
            let status = if slots <= 2 {
                LeaderStatus::VerySoon
            } else if slots <= 20 {
                LeaderStatus::Soon
            } else if slots <= 200 {
                LeaderStatus::KindaSoon
            } else {
                LeaderStatus::NotSoon
            };
            &&& upcoming.state == (StateView { leader_status: status, ..state })
            &&& upcoming.lines == seq![
                Line::<Seq<IpAddr>>::LeaderUpcoming { timestamp, slots },
            ]
            &&& begun.state == (StateView { leader_status: LeaderStatus::Leader, ..state })
            &&& begun.lines == seq![Line::<Seq<IpAddr>>::LeaderBegin { timestamp }]
            &&& ended.state == (StateView { leader_status: LeaderStatus::NotSoon, ..state })
            &&& ended.lines == seq![Line::<Seq<IpAddr>>::LeaderEnd { timestamp }]
        }),
{
}

} // verus!
