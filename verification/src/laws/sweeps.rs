//! What holds of the periodic work.

use crate::addr::{IpAddr, SocketAddr};
use crate::connection::{ConnectionView, Tally, Verdict, SUMMARY_WAIT};
use crate::laws::filters;
use crate::log::{Action, Line, LogView};
use crate::receiver::{ReceiverView, PERIOD};
use crate::signature::Signature;
use crate::state::{Outcome, StateView};
use crate::{connection, sweep, table};
use vstd::prelude::*;

verus! {

/// The periodic work leaves a sound state sound.
pub proof fn law_periodic_keeps_sound(state: StateView, now: u64, stamps: Seq<u64>)
    requires
        state.wf(),
    ensures
        state.periodic(now, stamps).state.wf(),
{
    let after = state.periodic(now, stamps).state;
    assert forall|peer: SocketAddr| #[trigger]
        after.connections.contains_key(peer) implies state.connections.contains_key(peer)
        && after.connections[peer].wf() && after.connections[peer].user_tx_count
        == state.connections[peer].user_tx_count by {
        let _ = sweep::lemma_kept_from(state.connections, now, stamps, peer);
    }
    vstd::set_lib::lemma_set_subset_finite(state.failures.dom(), after.failures.dom());
    vstd::set_lib::lemma_set_subset_finite(state.exceeds.dom(), after.exceeds.dom());
    vstd::set_lib::lemma_set_subset_finite(state.txs.dom(), after.txs.dom());
    assert forall|peer: SocketAddr| after.connections.dom().contains(
        peer,
    ) implies state.connections.dom().contains(peer) by {
        assert(after.connections.contains_key(peer));
    }
    vstd::set_lib::lemma_set_subset_finite(state.connections.dom(), after.connections.dom());
    assert forall|signature: Signature| #[trigger]
        after.txs.contains_key(signature) implies after.connections.contains_key(
        after.txs[signature],
    ) && after.connections[after.txs[signature]].user_tx_count > 0 by {
        assert(state.txs.contains_key(signature));
    }
}

/// The periodic work forgets the sender of a transaction exactly when it forgets that connection.
pub proof fn law_sender_forgotten_with_connection(
    state: StateView,
    now: u64,
    stamps: Seq<u64>,
    signature: Signature,
)
    requires
        state.wf(),
    ensures
        state.periodic(now, stamps).state.sender_of(signature) == match state.sender_of(signature) {
            Some(peer) if state.periodic(now, stamps).state.connections.contains_key(peer) => Some(
                peer,
            ),
            _ => None,
        },
{
}

/// Attempts that wait when their host is forgotten are logged, and only those.
pub proof fn law_forgotten_attempts_logged<T: Tally>(tallies: Map<IpAddr, T>, now: u64, ip: IpAddr)
    requires
        tallies.dom().finite(),
        tallies.contains_key(ip),
    ensures
        !sweep::tallies_kept(tallies, now).contains_key(ip) <==> connection::expired(
            tallies[ip],
            now,
        ),
        sweep::tallies_logged(tallies, table::in_order(tallies.dom()), now).contains(
            tallies[ip].line(now, ip),
        ) <==> connection::expired(tallies[ip], now) && tallies[ip].waiting() > 0,
{
    let ips = table::in_order(tallies.dom());
    table::lemma_in_order(tallies.dom());
    let due = sweep::left_over(tallies, now);
    let line = sweep::tally_line(tallies, now);
    let listed = ips.filter(due);
    let lines = sweep::tallies_logged(tallies, ips, now);
    assert(tallies.dom().contains(ip));
    assert(ips.contains(ip));
    let k = choose|k: int| 0 <= k < ips.len() && ips[k] == ip;
    if due(ip) {
        ips.lemma_filter_contains(due, k);
        let i = choose|i: int| 0 <= i < listed.len() && listed[i] == ip;
        assert(lines[i] == line(ip));
    }
    if lines.contains(line(ip)) {
        let i = choose|i: int| 0 <= i < lines.len() && lines[i] == line(ip);
        assert(lines[i] == line(listed[i]));
        tallies[listed[i]].lemma_line_names_host(now, listed[i], tallies[ip], ip);
        ips.lemma_filter_pred(due, i);
    }
}

/// The periodic work leaves nothing behind that is due: no host to be forgotten, and no connection
/// that has finished.  What it keeps was there before.
pub proof fn law_periodic_leaves_nothing_due(
    state: StateView,
    now: u64,
    stamps: Seq<u64>,
    ip: IpAddr,
    peer: SocketAddr,
)
    requires
        state.wf(),
    ensures
        ({
            let after = state.periodic(now, stamps).state;
            &&& after.failures.contains_key(ip) ==> {
                &&& state.failures.contains_key(ip)
                &&& after.failures[ip] == state.failures[ip]
                &&& !connection::expired(after.failures[ip], now)
            }
            &&& after.exceeds.contains_key(ip) ==> {
                &&& state.exceeds.contains_key(ip)
                &&& after.exceeds[ip] == state.exceeds[ip]
                &&& !connection::expired(after.exceeds[ip], now)
            }
            &&& after.connections.contains_key(peer) <==> state.connections.contains_key(peer)
                && !state.connections[peer].finished(now)
            &&& after.connections.contains_key(peer) ==> !after.connections[peer].finished(now)
        }),
{
    let _ = sweep::lemma_kept_from(state.connections, now, stamps, peer);
}

/// An open connection is never forgotten.
pub proof fn law_open_connections_kept(
    state: StateView,
    now: u64,
    stamps: Seq<u64>,
    peer: SocketAddr,
)
    requires
        state.wf(),
        state.connections.contains_key(peer),
        state.connections[peer].state is Open,
    ensures
        state.periodic(now, stamps).state.connections.contains_key(peer),
{
    let _ = sweep::lemma_kept_from(state.connections, now, stamps, peer);
}

/// The connection that a line of the periodic work is about.
pub open spec fn subject(line: LogView) -> Option<SocketAddr> {
    match line {
        Line::Inactive { timestamp, peer, stake } => Some(peer),
        Line::Summed { timestamp, action, peer, summary } => Some(peer),
        Line::Dups { timestamp, peer, others } => Some(peer),
        _ => None,
    }
}

/// The lines of `lines` that are about the connection of `peer`.
pub open spec fn about(lines: Seq<LogView>, peer: SocketAddr) -> Seq<LogView> {
    lines.filter(|line: LogView| subject(line) == Some(peer))
}

/// Lines none of which is about `peer`.
pub proof fn lemma_about_none(lines: Seq<LogView>, peer: SocketAddr)
    requires
        forall|i: int| 0 <= i < lines.len() ==> subject(#[trigger] lines[i]) != Some(peer),
    ensures
        about(lines, peer) == Seq::<LogView>::empty(),
{
    filters::lemma_filter_none(lines, |line: LogView| subject(line) == Some(peer));
}

/// Lines all of which are about `peer`.
proof fn lemma_about_all(lines: Seq<LogView>, peer: SocketAddr)
    requires
        forall|i: int| 0 <= i < lines.len() ==> subject(#[trigger] lines[i]) == Some(peer),
    ensures
        about(lines, peer) == lines,
{
    filters::lemma_filter_all(lines, |line: LogView| subject(line) == Some(peer));
}

/// What the periodic work logs about a connection is what that connection calls for, and there is
/// none of it about connections that are not known.
pub proof fn law_lines_about_connection(
    state: StateView,
    now: u64,
    stamps: Seq<u64>,
    peer: SocketAddr,
) -> (at: int)
    requires
        state.wf(),
        stamps.len() >= state.stamps_needed(now),
    ensures
        about(state.periodic(now, stamps).lines, peer) == if state.connections.contains_key(peer) {
            state.connections[peer].swept_lines(peer, now, stamps[at], stamps[at + 1])
        } else {
            seq![]
        },
        state.connections.contains_key(peer) ==> {
            &&& 0 <= at
            &&& at + state.connections[peer].stamps_needed(now) <= stamps.len()
            &&& match state.connections[peer].swept(now, stamps[at]) {
                Some(left) => state.periodic(now, stamps).state.connections.contains_key(peer)
                    && state.periodic(now, stamps).state.connections[peer] == left,
                None => !state.periodic(now, stamps).state.connections.contains_key(peer),
            }
        },
{
    let p = |line: LogView| subject(line) == Some(peer);
    let peers = table::in_order(state.connections.dom());
    table::lemma_in_order(state.connections.dom());
    let failures = sweep::tallies_logged(
        state.failures,
        table::in_order(state.failures.dom()),
        now,
    );
    let exceeds = sweep::tallies_logged(
        state.exceeds,
        table::in_order(state.exceeds.dom()),
        now,
    );
    let logged = sweep::connections_logged(state.connections, peers, now, stamps);
    Seq::filter_distributes_over_add(failures + exceeds, logged, p);
    Seq::filter_distributes_over_add(failures, exceeds, p);
    lemma_about_none(failures, peer);
    lemma_about_none(exceeds, peer);
    assert(peers.take(peers.len() as int) =~= peers);
    let at = if state.connections.dom().contains(peer) {
        assert(peers.contains(peer));
        let i = choose|i: int| 0 <= i < peers.len() && peers[i] == peer;
        sweep::lemma_swept_at(state.connections, peers, now, stamps, i);
        sweep::lemma_stamps_for_monotonic(state.connections, peers, now, i + 1);
        assert(peers.take(i + 1).drop_last() =~= peers.take(i));
        lemma_lines_about_upto(state.connections, peers, now, stamps, i, peers.len() as int);
        sweep::stamps_for(state.connections, peers.take(i), now) as int
    } else {
        lemma_lines_about_unknown(state.connections, peers, now, stamps, peer, peers.len() as int);
        0
    };
    assert(about(state.periodic(now, stamps).lines, peer) =~= about(logged, peer));
    at
}

proof fn lemma_lines_about_unknown(
    connections: Map<SocketAddr, ConnectionView>,
    peers: Seq<SocketAddr>,
    now: u64,
    stamps: Seq<u64>,
    peer: SocketAddr,
    n: int,
)
    requires
        0 <= n <= peers.len(),
        !peers.take(n).contains(peer),
    ensures
        about(
            sweep::connections_logged(connections, peers.take(n), now, stamps),
            peer,
        ) == Seq::<LogView>::empty(),
    decreases n,
{
    let p = |line: LogView| subject(line) == Some(peer);
    if n > 0 {
        let used = sweep::stamps_for(connections, peers.take(n - 1), now) as int;
        let last = peers[n - 1];
        assert(peers.take(n).drop_last() =~= peers.take(n - 1));
        assert(peers.take(n)[n - 1] == last);
        assert(!peers.take(n - 1).contains(peer)) by {
            if peers.take(n - 1).contains(peer) {
                let fewer = peers.take(n - 1);
                let j = choose|j: int| 0 <= j < fewer.len() && fewer[j] == peer;
                assert(peers.take(n)[j] == peer);
            }
        }
        lemma_lines_about_unknown(connections, peers, now, stamps, peer, n - 1);
        let before = sweep::connections_logged(connections, peers.take(n - 1), now, stamps);
        let lines = connections[last].swept_lines(last, now, stamps[used], stamps[used + 1]);
        Seq::filter_distributes_over_add(before, lines, p);
        lemma_about_none(lines, peer);
        assert(about(before + lines, peer) =~= Seq::<LogView>::empty());
    } else {
        lemma_about_none(
            sweep::connections_logged(connections, peers.take(n), now, stamps),
            peer,
        );
    }
}

proof fn lemma_lines_about_upto(
    connections: Map<SocketAddr, ConnectionView>,
    peers: Seq<SocketAddr>,
    now: u64,
    stamps: Seq<u64>,
    i: int,
    n: int,
)
    requires
        table::lists(peers, connections.dom()),
        0 <= i < n <= peers.len(),
    ensures
        ({
            let used = sweep::stamps_for(connections, peers.take(i), now) as int;
            about(
                sweep::connections_logged(connections, peers.take(n), now, stamps),
                peers[i],
            ) == connections[peers[i]].swept_lines(peers[i], now, stamps[used], stamps[used + 1])
        }),
    decreases n,
{
    let peer = peers[i];
    let p = |line: LogView| subject(line) == Some(peer);
    let used = sweep::stamps_for(connections, peers.take(n - 1), now) as int;
    let last = peers[n - 1];
    assert(peers.take(n).drop_last() =~= peers.take(n - 1));
    assert(peers.take(n).last() == last);
    let before = sweep::connections_logged(connections, peers.take(n - 1), now, stamps);
    let lines = connections[last].swept_lines(last, now, stamps[used], stamps[used + 1]);
    Seq::filter_distributes_over_add(before, lines, p);
    if i == n - 1 {
        sweep::lemma_listed_once(peers, connections.dom(), i);
        lemma_lines_about_unknown(connections, peers, now, stamps, peer, i);
        lemma_about_all(lines, peer);
        assert(about(before + lines, peer) =~= lines);
    } else {
        lemma_lines_about_upto(connections, peers, now, stamps, i, n - 1);
        sweep::lemma_listed_once(peers, connections.dom(), n - 1);
        assert(peers.take(n - 1)[i] == peer);
        lemma_about_none(lines, peer);
        assert(about(before + lines, peer) =~= about(before, peer));
    }
}

/// A connection that is forgotten is summed up once: as dropped if the validator ended it, as closed
/// if the remote peer did.  Then the hosts whose transactions it repeated are named, if there are
/// any.  Nothing else is logged about it.
pub proof fn law_end_is_logged(
    state: StateView,
    now: u64,
    stamps: Seq<u64>,
    peer: SocketAddr,
) -> (at: int)
    requires
        state.wf(),
        stamps.len() >= state.stamps_needed(now),
        state.connections.contains_key(peer),
        !state.periodic(now, stamps).state.connections.contains_key(peer),
    ensures
        ({
            let connection = state.connections[peer];
            let summed = Line::Summed {
                timestamp: stamps[at],
                action: if connection.state is Pruned {
                    Action::Dropped
                } else {
                    Action::Closed
                },
                peer,
                summary: connection.summary(stamps[at]),
            };
            &&& 0 <= at < stamps.len()
            &&& about(state.periodic(now, stamps).lines, peer) == if connection.dup_peers == Set::<
                IpAddr,
            >::empty() {
                seq![summed]
            } else {
                seq![
                    summed,
                    Line::Dups {
                        timestamp: stamps[at + 1],
                        peer,
                        others: table::in_order(connection.dup_peers),
                    },
                ]
            }
            &&& connection.dup_peers != Set::<IpAddr>::empty() ==> at + 1 < stamps.len()
        }),
{
    law_lines_about_connection(state, now, stamps, peer)
}

/// Done again at once, the periodic work logs nothing, needs no clock and changes nothing.
pub proof fn law_periodic_idempotent(
    state: StateView,
    now: u64,
    stamps: Seq<u64>,
    more_stamps: Seq<u64>,
)
    requires
        state.wf(),
    ensures
        ({
            let once = state.periodic(now, stamps).state;
            &&& once.stamps_needed(now) == 0
            &&& once.periodic(now, more_stamps) == (Outcome { state: once, lines: seq![] })
        }),
{
    let once = state.periodic(now, stamps).state;
    law_periodic_keeps_sound(state, now, stamps);
    let peers = table::in_order(once.connections.dom());
    table::lemma_in_order(once.connections.dom());
    assert forall|peer: SocketAddr| #[trigger]
        once.connections.contains_key(peer) implies once.connections[peer].verdict(now)
        == Verdict::Keep by {
        let _ = sweep::lemma_kept_from(state.connections, now, stamps, peer);
        assert(state.connections[peer].wf());
    }
    lemma_quiet_sweep(once.connections, peers, now, more_stamps, peers.len() as int);
    assert(peers.take(peers.len() as int) =~= peers);
    lemma_quiet_tallies(once.failures, now);
    lemma_quiet_tallies(once.exceeds, now);
    assert(once.periodic(now, more_stamps).state =~= once);
    assert(once.periodic(now, more_stamps).lines =~= seq![]);
}

/// A sweep of connections about which there is nothing to do.
proof fn lemma_quiet_sweep(
    connections: Map<SocketAddr, ConnectionView>,
    peers: Seq<SocketAddr>,
    now: u64,
    stamps: Seq<u64>,
    n: int,
)
    requires
        table::lists(peers, connections.dom()),
        forall|peer: SocketAddr| #[trigger]
            connections.contains_key(peer) ==> connections[peer].verdict(now) == Verdict::Keep,
        0 <= n <= peers.len(),
    ensures
        sweep::stamps_for(connections, peers.take(n), now) == 0,
        sweep::connections_logged(connections, peers.take(n), now, stamps) == Seq::<
            LogView,
        >::empty(),
        sweep::connections_kept(connections, peers.take(n), now, stamps) == connections,
    decreases n,
{
    if n > 0 {
        lemma_quiet_sweep(connections, peers, now, stamps, n - 1);
        assert(peers.take(n).drop_last() =~= peers.take(n - 1));
        sweep::lemma_listed_once(peers, connections.dom(), n - 1);
        assert(connections.contains_key(peers[n - 1]));
        assert(sweep::connections_logged(connections, peers.take(n), now, stamps) =~= Seq::<
            LogView,
        >::empty());
        assert(sweep::connections_kept(connections, peers.take(n), now, stamps)
            =~= connections);
    }
}

/// A sweep of hosts none of which is to be forgotten.
proof fn lemma_quiet_tallies<T: Tally>(tallies: Map<IpAddr, T>, now: u64)
    requires
        tallies.dom().finite(),
        forall|ip: IpAddr| #[trigger]
            tallies.contains_key(ip) ==> !connection::expired(tallies[ip], now),
    ensures
        sweep::tallies_kept(tallies, now) == tallies,
        sweep::tallies_logged(tallies, table::in_order(tallies.dom()), now).len() == 0,
{
    let ips = table::in_order(tallies.dom());
    table::lemma_in_order(tallies.dom());
    let due = sweep::left_over(tallies, now);
    if ips.filter(due).len() > 0 {
        let ip = ips.filter(due)[0];
        ips.lemma_filter_pred(due, 0);
        assert(ips.filter(due).contains(ip));
        ips.lemma_filter_contains_rev(due, ip);
        assert(tallies.dom().contains(ip));
        assert(tallies.contains_key(ip));
    }
    assert(sweep::tallies_kept(tallies, now) =~= tallies);
}

/// A connection is logged as inactive only if it has not delivered any transaction in its first ten
/// seconds, and once that is logged it is not logged again.
pub proof fn law_inactive_once(connection: ConnectionView, now: u64, stamp: u64, later: u64)
    requires
        connection.verdict(now) == Verdict::Inactive,
    ensures
        connection.state is Open,
        connection.vote_tx_count == 0,
        connection.user_tx_count == 0,
        now >= connection.start_timestamp + SUMMARY_WAIT,
        connection.swept(now, stamp) matches Some(after) && after.inactive_logged && after.verdict(
            later,
        ) != Verdict::Inactive,
{
}

/// A connection is summed up as active only if something has changed since it was last summed up,
/// and not before ten seconds have gone by since then; nothing that it counts is lost by that.
pub proof fn law_active_at_intervals(connection: ConnectionView, now: u64, stamp: u64)
    requires
        connection.verdict(now) == Verdict::Active,
    ensures
        connection.state is Open,
        connection.changed,
        now >= connection.log_timestamp + SUMMARY_WAIT,
        connection.swept(now, stamp) matches Some(after) && after == (ConnectionView {
            changed: false,
            log_timestamp: stamp,
            ..connection
        }),
{
}

/// The periodic work is done no more often than every ten seconds, and never put off longer.
pub proof fn law_period(receiver: ReceiverView, now: u64, stamps: Seq<u64>, later: u64)
    ensures
        receiver.due(now) ==> receiver.ticked(now, stamps).last_log_timestamp == now,
        receiver.due(now) ==> (receiver.ticked(now, stamps).due(later) <==> later >= now + PERIOD),
        !receiver.due(now) ==> receiver.ticked(now, stamps) == receiver,
{
}

} // verus!
