//! The periodic work: logging what has become due and forgetting what is no longer of interest.

use crate::addr::{IpAddr, SocketAddr};
use crate::clock::{now_millis, passed};
use crate::connection::{Connection, ConnectionView, Tally, Verdict, TALLY_LIFE};
use crate::log::{emit, Action, Line, LogLine, LogView};
use crate::signature::Signature;
use crate::state::{Fault, Outcome, State, StateView};
use crate::table::{Key, Table};
use vstd::prelude::*;

verus! {

/// The hosts whose attempts to connect are not forgotten at `now`.
pub open spec fn tallies_kept<T: Tally>(tallies: Map<IpAddr, T>, now: u64) -> Map<IpAddr, T> {
    Map::new(
        |ip: IpAddr| tallies.contains_key(ip) && !crate::connection::expired(tallies[ip], now),
        |ip: IpAddr| tallies[ip],
    )
}

/// Is `ip` forgotten at `now` with attempts not yet logged?
pub open spec fn left_over<T: Tally>(tallies: Map<IpAddr, T>, now: u64) -> spec_fn(IpAddr) -> bool {
    |ip: IpAddr| crate::connection::expired(tallies[ip], now) && tallies[ip].waiting() > 0
}

/// The line that logs the attempts of `ip` at `now`.
pub open spec fn tally_line<T: Tally>(tallies: Map<IpAddr, T>, now: u64) -> spec_fn(
    IpAddr,
) -> LogView {
    |ip: IpAddr| tallies[ip].line(now, ip)
}

/// What is logged of those of `ips` that are forgotten at `now` with attempts not yet logged.
pub open spec fn tallies_logged<T: Tally>(
    tallies: Map<IpAddr, T>,
    ips: Seq<IpAddr>,
    now: u64,
) -> Seq<LogView> {
    ips.filter(left_over(tallies, now)).map_values(tally_line(tallies, now))
}

/// The members of a list of keys differ from each other.
pub proof fn lemma_listed_once<K: Key>(s: Seq<K>, keys: Set<K>, i: int)
    requires
        crate::table::lists(s, keys),
        0 <= i < s.len(),
    ensures
        keys.contains(s[i]),
        !s.take(i).contains(s[i]),
{
    assert(s.contains(s[i]));
    if s.take(i).contains(s[i]) {
        let j = choose|j: int| 0 <= j < i && s.take(i)[j] == s[i];
        assert(crate::table::raw_less(s[j].raw(), s[i].raw()));
    }
}

/// The first `i + 1` elements are the first `i` and the one after them.
pub proof fn lemma_take_one_more<A>(s: Seq<A>, i: int)
    requires
        0 <= i < s.len(),
    ensures
        s.take(i + 1) == s.take(i).push(s[i]),
        forall|a: A| #[trigger] s.take(i + 1).contains(a) <==> s.take(i).contains(a) || a == s[i],
{
    assert(s.take(i + 1) =~= s.take(i).push(s[i]));
    assert forall|a: A| #[trigger]
        s.take(i + 1).contains(a) <==> s.take(i).contains(a) || a == s[i] by {
        if s.take(i).contains(a) {
            let j = choose|j: int| 0 <= j < i && s.take(i)[j] == a;
            assert(s.take(i + 1)[j] == a);
        }
        assert(s.take(i + 1)[i] == s[i]);
    }
}

/// One more element at the end of what is filtered and mapped.
pub proof fn lemma_filter_map_step<A, B>(
    s: Seq<A>,
    i: int,
    p: spec_fn(A) -> bool,
    f: spec_fn(A) -> B,
)
    requires
        0 <= i < s.len(),
    ensures
        s.take(i + 1).filter(p).map_values(f) == if p(s[i]) {
            s.take(i).filter(p).map_values(f).push(f(s[i]))
        } else {
            s.take(i).filter(p).map_values(f)
        },
{
    reveal(Seq::filter);
    assert(s.take(i + 1).drop_last() =~= s.take(i));
    assert(s.take(i + 1).last() == s[i]);
    if p(s[i]) {
        assert(s.take(i).filter(p).push(s[i]).map_values(f) =~= s.take(i).filter(p).map_values(
            f,
        ).push(f(s[i])));
    }
}

/// Forgets the hosts that are due at `now`, logging what was not yet logged of them.
pub fn sweep_tallies<T: Tally>(tallies: &mut Table<IpAddr, T>, now: u64, log: &mut Vec<LogLine>)
    requires
        old(tallies).wf(),
    ensures
        final(tallies).wf(),
        final(tallies)@ == tallies_kept(old(tallies)@, now),
        crate::log::shown(final(log)@) == crate::log::shown(old(log)@) + tallies_logged(
            old(tallies)@,
            crate::table::in_order(old(tallies)@.dom()),
            now,
        ),
{
    let ips = tallies.keys();
    let ghost all = tallies@;
    let ghost logged = crate::log::shown(log@);
    assert(crate::log::shown(log@) =~= logged + tallies_logged(all, ips@.take(0), now));
    for i in 0..ips.len()
        invariant
            tallies.wf(),
            crate::table::lists(ips@, all.dom()),
            forall|ip: IpAddr| #[trigger]
                tallies@.contains_key(ip) <==> all.contains_key(ip) && !(ips@.take(
                    i as int,
                ).contains(ip) && crate::connection::expired(all[ip], now)),
            forall|ip: IpAddr| tallies@.contains_key(ip) ==> #[trigger] tallies@[ip] == all[ip],
            crate::log::shown(log@) == logged + tallies_logged(all, ips@.take(i as int), now),
    {
        let ip = ips[i];
        proof {
            lemma_listed_once(ips@, all.dom(), i as int);
            lemma_filter_map_step(ips@, i as int, left_over(all, now), tally_line(all, now));
            lemma_take_one_more(ips@, i as int);
            assert(tallies@.contains_key(ip));
        }
        if let Some(tally) = tallies.get(&ip) {
            if passed(now, tally.get_logged_at(), TALLY_LIFE) {
                if tally.get_waiting() > 0 {
                    emit(log, tally.to_line(now, ip));
                }
                tallies.remove(&ip);
            }
        }
    }
    proof {
        assert(ips@.take(ips@.len() as int) =~= ips@);
        assert(tallies@ =~= tallies_kept(all, now));
    }
}

impl ConnectionView {
    /// How many readings of the clock a sweep at `now` needs for the connection: one for each line
    /// that it logs about it, except that it logs an inactive connection with its own time.
    pub open spec fn stamps_needed(self, now: u64) -> nat {
        match self.verdict(now) {
            Verdict::Keep => 0,
            Verdict::Active => 1,
            Verdict::Inactive => 0,
            Verdict::End(_) => if self.dup_peers == Set::<IpAddr>::empty() {
                1
            } else {
                2
            },
        }
    }

    /// What a sweep at `now` logs about the connection, given what the clock showed.
    pub open spec fn swept_lines(
        self,
        peer: SocketAddr,
        now: u64,
        stamp: u64,
        dups_stamp: u64,
    ) -> Seq<LogView> {
        let summed = |action: Action|
            Line::<Seq<IpAddr>>::Summed {
                timestamp: stamp,
                action,
                peer,
                summary: self.summary(stamp),
            };
        match self.verdict(now) {
            Verdict::Keep => seq![],
            Verdict::Active => seq![summed(Action::Active)],
            Verdict::Inactive => seq![Line::Inactive { timestamp: now, peer, stake: self.stake }],
            Verdict::End(action) => if self.dup_peers == Set::<IpAddr>::empty() {
                seq![summed(action)]
            } else {
                seq![
                    summed(action),
                    Line::Dups {
                        timestamp: dups_stamp,
                        peer,
                        others: crate::table::in_order(self.dup_peers),
                    },
                ]
            },
        }
    }

    /// What is left of the connection after a sweep at `now`, if anything is.
    pub open spec fn swept(self, now: u64, stamp: u64) -> Option<ConnectionView> {
        match self.verdict(now) {
            Verdict::Keep => Some(self),
            Verdict::Active => Some(self.summed_up(stamp)),
            Verdict::Inactive => Some(self.marked_inactive()),
            Verdict::End(_) => None,
        }
    }
}

/// How many readings of the clock a sweep at `now` of `peers` needs.
pub open spec fn stamps_for(
    connections: Map<SocketAddr, ConnectionView>,
    peers: Seq<SocketAddr>,
    now: u64,
) -> nat
    decreases peers.len(),
{
    if peers.len() == 0 {
        0
    } else {
        stamps_for(connections, peers.drop_last(), now) + connections[peers.last()].stamps_needed(
            now,
        )
    }
}

/// What a sweep at `now` of `peers`, one after the other, logs; `stamps` is what the clock showed.
pub open spec fn connections_logged(
    connections: Map<SocketAddr, ConnectionView>,
    peers: Seq<SocketAddr>,
    now: u64,
    stamps: Seq<u64>,
) -> Seq<LogView>
    decreases peers.len(),
{
    if peers.len() == 0 {
        seq![]
    } else {
        let used = stamps_for(connections, peers.drop_last(), now);
        connections_logged(connections, peers.drop_last(), now, stamps)
            + connections[peers.last()].swept_lines(
            peers.last(),
            now,
            stamps[used as int],
            stamps[(used + 1) as int],
        )
    }
}

/// The connections after a sweep at `now` of `peers`, one after the other; `stamps` is what the
/// clock showed.
pub open spec fn connections_kept(
    connections: Map<SocketAddr, ConnectionView>,
    peers: Seq<SocketAddr>,
    now: u64,
    stamps: Seq<u64>,
) -> Map<SocketAddr, ConnectionView>
    decreases peers.len(),
{
    if peers.len() == 0 {
        connections
    } else {
        let used = stamps_for(connections, peers.drop_last(), now);
        let before = connections_kept(connections, peers.drop_last(), now, stamps);
        match connections[peers.last()].swept(now, stamps[used as int]) {
            Some(connection) => before.insert(peers.last(), connection),
            None => before.remove(peers.last()),
        }
    }
}

/// Sums up `connection`, which is that of `peer_addr`, at `timestamp`.
pub fn log_active_or_ended(
    peer_addr: &SocketAddr,
    connection: &mut Connection,
    action: Action,
    timestamp: u64,
    log: &mut Vec<LogLine>,
)
    ensures
        old(connection).wf() ==> final(connection).wf(),
        final(connection).dup_peers == old(connection).dup_peers,
        final(connection)@ == old(connection)@.summed_up(timestamp),
        crate::log::shown(final(log)@) == crate::log::shown(old(log)@).push(
            Line::Summed {
                timestamp,
                action,
                peer: *peer_addr,
                summary: old(connection)@.summary(timestamp),
            },
        ),
{
    let summary = connection.sum_up(timestamp);
    emit(log, Line::Summed { timestamp, action, peer: *peer_addr, summary });
}

/// Names, at `timestamp`, the hosts whose transactions were sent again on `connection`, which is
/// that of `peer_addr`, if there are any.
pub fn log_dups(
    peer_addr: &SocketAddr,
    connection: &Connection,
    timestamp: u64,
    log: &mut Vec<LogLine>,
)
    requires
        connection.dup_peers.wf(),
    ensures
        crate::log::shown(final(log)@) == if connection@.dup_peers == Set::<IpAddr>::empty() {
            crate::log::shown(old(log)@)
        } else {
            crate::log::shown(old(log)@).push(
                Line::Dups {
                    timestamp,
                    peer: *peer_addr,
                    others: crate::table::in_order(connection@.dup_peers),
                },
            )
        },
{
    if connection.dup_peers.is_empty() {
        return;
    }
    emit(log, Line::Dups { timestamp, peer: *peer_addr, others: connection.dup_peers.keys() });
}

/// The connections in `table`.
pub open spec fn viewed(table: Map<SocketAddr, Connection>) -> Map<SocketAddr, ConnectionView> {
    table.map_values(|connection: Connection| connection@)
}

/// Every connection in `table` is sound.
pub open spec fn all_sound(table: Map<SocketAddr, Connection>) -> bool {
    forall|peer: SocketAddr| #[trigger] table.contains_key(peer) ==> table[peer].wf()
}

/// A sweep of fewer peers needs no more readings.
pub proof fn lemma_stamps_for_monotonic(
    connections: Map<SocketAddr, ConnectionView>,
    peers: Seq<SocketAddr>,
    now: u64,
    i: int,
)
    requires
        0 <= i <= peers.len(),
    ensures
        stamps_for(connections, peers.take(i), now) <= stamps_for(connections, peers, now),
    decreases peers.len() - i,
{
    if i == peers.len() {
        assert(peers.take(i) =~= peers);
    } else {
        lemma_stamps_for_monotonic(connections, peers, now, i + 1);
        assert(peers.take(i + 1).drop_last() =~= peers.take(i));
    }
}

/// A sweep touches the swept peers only.
pub proof fn lemma_connections_kept_frame(
    connections: Map<SocketAddr, ConnectionView>,
    peers: Seq<SocketAddr>,
    now: u64,
    stamps: Seq<u64>,
    peer: SocketAddr,
)
    requires
        !peers.contains(peer),
    ensures
        connections_kept(connections, peers, now, stamps).contains_key(peer)
            == connections.contains_key(peer),
        connections.contains_key(peer) ==> connections_kept(connections, peers, now, stamps)[peer]
            == connections[peer],
    decreases peers.len(),
{
    if peers.len() > 0 {
        assert(peers.contains(peers.last()));
        assert(!peers.drop_last().contains(peer)) by {
            if peers.drop_last().contains(peer) {
                let j = choose|j: int|
                    0 <= j < peers.drop_last().len() && peers.drop_last()[j] == peer;
                assert(peers[j] == peer);
            }
        }
        lemma_connections_kept_frame(connections, peers.drop_last(), now, stamps, peer);
    }
}

/// Sweeps the connections at `now`; `stamps` is what the clock showed, one reading for each line
/// that needs one.
pub fn sweep_connections(
    connections: &mut Table<SocketAddr, Connection>,
    now: u64,
    stamps: &Vec<u64>,
    log: &mut Vec<LogLine>,
)
    requires
        old(connections).wf(),
        all_sound(old(connections)@),
        stamps@.len() >= stamps_for(
            viewed(old(connections)@),
            crate::table::in_order(old(connections)@.dom()),
            now,
        ),
    ensures
        final(connections).wf(),
        all_sound(final(connections)@),
        viewed(final(connections)@) == connections_kept(
            viewed(old(connections)@),
            crate::table::in_order(old(connections)@.dom()),
            now,
            stamps@,
        ),
        crate::log::shown(final(log)@) == crate::log::shown(old(log)@) + connections_logged(
            viewed(old(connections)@),
            crate::table::in_order(old(connections)@.dom()),
            now,
            stamps@,
        ),
{
    let peers = connections.keys();
    let ghost all = viewed(connections@);
    let ghost logged = crate::log::shown(log@);
    let available = stamps.len();
    let mut used: usize = 0;
    assert(crate::log::shown(log@) =~= logged + connections_logged(
        all,
        peers@.take(0),
        now,
        stamps@,
    ));
    for i in 0..peers.len()
        invariant
            connections.wf(),
            all_sound(connections@),
            crate::table::lists(peers@, all.dom()),
            available == stamps@.len() >= stamps_for(all, peers@, now),
            used == stamps_for(all, peers@.take(i as int), now),
            viewed(connections@) == connections_kept(all, peers@.take(i as int), now, stamps@),
            crate::log::shown(log@) == logged + connections_logged(
                all,
                peers@.take(i as int),
                now,
                stamps@,
            ),
    {
        let peer = peers[i];
        let ghost before = connections@;
        let ghost shown_before = crate::log::shown(log@);
        proof {
            lemma_listed_once(peers@, all.dom(), i as int);
            lemma_connections_kept_frame(all, peers@.take(i as int), now, stamps@, peer);
            lemma_stamps_for_monotonic(all, peers@, now, i + 1);
            assert(peers@.take(i + 1).drop_last() =~= peers@.take(i as int));
            assert(viewed(before).contains_key(peer));
            assert(before[peer]@ == all[peer]);
        }
        let verdict = match connections.get(&peer) {
            Some(connection) => connection.judge(now),
            None => Verdict::Keep,
        };
        match verdict {
            Verdict::Keep => {
                assert(viewed(connections@) =~= viewed(before).insert(peer, all[peer]));
            },
            Verdict::Active => {
                if let Some(mut connection) = connections.remove(&peer) {
                    log_active_or_ended(&peer, &mut connection, Action::Active, stamps[used], log);
                    connections.insert(peer, connection);
                }
                used = used + 1;
                assert(viewed(connections@) =~= viewed(before).insert(
                    peer,
                    all[peer].summed_up(stamps@[used - 1]),
                ));
            },
            Verdict::Inactive => {
                if let Some(mut connection) = connections.remove(&peer) {
                    emit(log, Line::Inactive { timestamp: now, peer, stake: connection.stake });
                    connection.inactive_logged = true;
                    connections.insert(peer, connection);
                }
                assert(viewed(connections@) =~= viewed(before).insert(
                    peer,
                    all[peer].marked_inactive(),
                ));
            },
            Verdict::End(action) => {
                if let Some(mut connection) = connections.remove(&peer) {
                    log_active_or_ended(&peer, &mut connection, action, stamps[used], log);
                    used = used + 1;
                    if !connection.dup_peers.is_empty() {
                        log_dups(&peer, &connection, stamps[used], log);
                        used = used + 1;
                    }
                }
                assert(viewed(connections@) =~= viewed(before).remove(peer));
            },
        }
        assert(crate::log::shown(log@) =~= logged + connections_logged(
            all,
            peers@.take(i + 1),
            now,
            stamps@,
        ));
    }
    assert(peers@.take(peers@.len() as int) =~= peers@);
}

/// The transactions whose connections are remembered.
pub open spec fn txs_kept<C>(
    txs: Map<Signature, SocketAddr>,
    connections: Map<SocketAddr, C>,
) -> Map<Signature, SocketAddr> {
    Map::new(
        |signature: Signature|
            txs.contains_key(signature) && connections.contains_key(txs[signature]),
        |signature: Signature| txs[signature],
    )
}

/// Forgets the transactions whose connections are no longer remembered.
pub fn sweep_txs(
    txs: &mut Table<Signature, SocketAddr>,
    connections: &Table<SocketAddr, Connection>,
)
    requires
        old(txs).wf(),
        connections.wf(),
    ensures
        final(txs).wf(),
        final(txs)@ == txs_kept(old(txs)@, connections@),
{
    let signatures = txs.keys();
    let ghost all = txs@;
    for i in 0..signatures.len()
        invariant
            txs.wf(),
            connections.wf(),
            crate::table::lists(signatures@, all.dom()),
            forall|signature: Signature| #[trigger]
                txs@.contains_key(signature) <==> all.contains_key(signature) && !(
                signatures@.take(i as int).contains(signature) && !connections@.contains_key(
                    all[signature],
                )),
            forall|signature: Signature|
                txs@.contains_key(signature) ==> #[trigger] txs@[signature] == all[signature],
    {
        let signature = signatures[i];
        proof {
            lemma_listed_once(signatures@, all.dom(), i as int);
            lemma_take_one_more(signatures@, i as int);
        }
        let orphan = match txs.get(&signature) {
            Some(peer) => !connections.contains_key(peer),
            None => false,
        };
        if orphan {
            txs.remove(&signature);
        }
    }
    proof {
        assert(signatures@.take(signatures@.len() as int) =~= signatures@);
        assert(txs@ =~= txs_kept(all, connections@));
    }
}

impl StateView {
    /// How many readings of the clock the periodic work at `now` needs.
    pub open spec fn stamps_needed(self, now: u64) -> nat {
        stamps_for(self.connections, crate::table::in_order(self.connections.dom()), now)
    }

    /// The periodic work at `now`; `stamps` is what the clock showed whenever it was read.
    pub open spec fn periodic(self, now: u64, stamps: Seq<u64>) -> Outcome {
        let peers = crate::table::in_order(self.connections.dom());
        let connections = connections_kept(self.connections, peers, now, stamps);
        Outcome {
            state: StateView {
                leader_status: self.leader_status,
                failures: tallies_kept(self.failures, now),
                exceeds: tallies_kept(self.exceeds, now),
                connections,
                txs: txs_kept(self.txs, connections),
            },
            lines: tallies_logged(
                self.failures,
                crate::table::in_order(self.failures.dom()),
                now,
            ) + tallies_logged(self.exceeds, crate::table::in_order(self.exceeds.dom()), now)
                + connections_logged(self.connections, peers, now, stamps),
        }
    }
}

/// What a sweep leaves of each connection: the clock showed the readings that come after those that
/// the connections before it needed.
pub proof fn lemma_swept_at(
    connections: Map<SocketAddr, ConnectionView>,
    peers: Seq<SocketAddr>,
    now: u64,
    stamps: Seq<u64>,
    i: int,
)
    requires
        crate::table::lists(peers, connections.dom()),
        0 <= i < peers.len(),
    ensures
        ({
            let used = stamps_for(connections, peers.take(i), now) as int;
            let kept = connections_kept(connections, peers, now, stamps);
            &&& connections.contains_key(peers[i])
            &&& match connections[peers[i]].swept(now, stamps[used]) {
                Some(left) => kept.contains_key(peers[i]) && kept[peers[i]] == left,
                None => !kept.contains_key(peers[i]),
            }
        }),
{
    lemma_swept_upto(connections, peers, now, stamps, i, peers.len() as int);
    assert(peers.take(peers.len() as int) =~= peers);
}

/// What a sweep of the first `n` peers leaves of each of their connections.
proof fn lemma_swept_upto(
    connections: Map<SocketAddr, ConnectionView>,
    peers: Seq<SocketAddr>,
    now: u64,
    stamps: Seq<u64>,
    i: int,
    n: int,
)
    requires
        crate::table::lists(peers, connections.dom()),
        0 <= i < n <= peers.len(),
    ensures
        ({
            let used = stamps_for(connections, peers.take(i), now) as int;
            let kept = connections_kept(connections, peers.take(n), now, stamps);
            &&& connections.contains_key(peers[i])
            &&& match connections[peers[i]].swept(now, stamps[used]) {
                Some(left) => kept.contains_key(peers[i]) && kept[peers[i]] == left,
                None => !kept.contains_key(peers[i]),
            }
        }),
    decreases n,
{
    assert(peers.take(n).drop_last() =~= peers.take(n - 1));
    assert(peers.take(n).last() == peers[n - 1]);
    lemma_listed_once(peers, connections.dom(), i);
    if i < n - 1 {
        lemma_swept_upto(connections, peers, now, stamps, i, n - 1);
        lemma_listed_once(peers, connections.dom(), n - 1);
        assert(peers.take(n - 1)[i] == peers[i]);
    }
}

/// What is left after a sweep was there before it, and is what the sweep left of that.
pub proof fn lemma_kept_from(
    connections: Map<SocketAddr, ConnectionView>,
    now: u64,
    stamps: Seq<u64>,
    peer: SocketAddr,
) -> (stamp: u64)
    requires
        connections.dom().finite(),
    ensures
        ({
            let peers = crate::table::in_order(connections.dom());
            let kept = connections_kept(connections, peers, now, stamps);
            &&& kept.contains_key(peer) ==> connections.contains_key(peer)
            &&& connections.contains_key(peer) ==> match connections[peer].swept(now, stamp) {
                Some(left) => kept.contains_key(peer) && kept[peer] == left,
                None => !kept.contains_key(peer),
            }
        }),
{
    let peers = crate::table::in_order(connections.dom());
    crate::table::lemma_in_order(connections.dom());
    if connections.dom().contains(peer) {
        assert(peers.contains(peer));
        let i = choose|i: int| 0 <= i < peers.len() && peers[i] == peer;
        lemma_swept_at(connections, peers, now, stamps, i);
        stamps[stamps_for(connections, peers.take(i), now) as int]
    } else {
        assert(!peers.contains(peer));
        lemma_connections_kept_frame(connections, peers, now, stamps, peer);
        0
    }
}

impl State {
    /// Reads the clock as often as the periodic work at `now` needs it; nothing when the clock
    /// stands before the Unix epoch.
    pub fn read_stamps(&self, now: u64) -> (stamps: Option<Vec<u64>>)
        requires
            self.wf(),
        ensures
            match stamps {
                Some(stamps) => {
                    &&& stamps@.len() == self@.stamps_needed(now)
                    &&& crate::clock::all_showed(stamps@)
                },
                None => crate::clock::clock_showed(None),
            },
            self@.stamps_needed(now) == 0 ==> stamps is Some,
    {
        let peers = self.connections.keys();
        let ghost all = self@.connections;
        let mut stamps: Vec<u64> = Vec::new();
        assert(all.dom() =~= self.connections@.dom());
        for i in 0..peers.len()
            invariant
                self.wf(),
                all == self@.connections,
                crate::table::lists(peers@, all.dom()),
                peers@ == crate::table::in_order(all.dom()),
                stamps@.len() == stamps_for(all, peers@.take(i as int), now),
                crate::clock::all_showed(stamps@),
        {
            let peer = peers[i];
            proof {
                lemma_listed_once(peers@, all.dom(), i as int);
                lemma_stamps_for_monotonic(all, peers@, now, i + 1);
                assert(peers@.take(i + 1).drop_last() =~= peers@.take(i as int));
            }
            if let Some(connection) = self.connections.get(&peer) {
                let (summed, named): (bool, bool) = match connection.judge(now) {
                    Verdict::Keep => (false, false),
                    Verdict::Active => (true, false),
                    Verdict::Inactive => (false, false),
                    Verdict::End(_) => (true, !connection.dup_peers.is_empty()),
                };
                if summed {
                    match now_millis() {
                        Some(stamp) => stamps.push(stamp),
                        None => {
                            return None;
                        },
                    }
                }
                if named {
                    match now_millis() {
                        Some(stamp) => stamps.push(stamp),
                        None => {
                            return None;
                        },
                    }
                }
            }
        }
        assert(peers@.take(peers@.len() as int) =~= peers@);
        Some(stamps)
    }

    /// Does the periodic work at `now`; `stamps` is what the clock showed, one reading for each
    /// line that needs one.
    pub fn periodic_at(&mut self, now: u64, stamps: &Vec<u64>, log: &mut Vec<LogLine>)
        requires
            old(self).wf(),
            stamps@.len() >= old(self)@.stamps_needed(now),
        ensures
            final(self).wf(),
            final(self)@ == old(self)@.periodic(now, stamps@).state,
            crate::log::shown(final(log)@) == crate::log::shown(old(log)@) + old(self)@.periodic(
                now,
                stamps@,
            ).lines,
    {
        let ghost before = self@;
        assert(before.connections.dom() =~= self.connections@.dom());
        assert(before.connections == viewed(self.connections@));
        sweep_tallies(&mut self.failures, now, log);
        sweep_tallies(&mut self.exceeds, now, log);
        sweep_connections(&mut self.connections, now, stamps, log);
        sweep_txs(&mut self.txs, &self.connections);
        proof {
            let peers = crate::table::in_order(before.connections.dom());
            crate::table::lemma_in_order(before.connections.dom());
            self.failures.lemma_finite();
            self.exceeds.lemma_finite();
            self.connections.lemma_finite();
            self.txs.lemma_finite();
            assert(self@.connections.dom() =~= self.connections@.dom());
            assert(self@.connections == connections_kept(before.connections, peers, now, stamps@));
            assert(self@.txs =~= txs_kept(before.txs, self@.connections));
            assert(self@ =~= before.periodic(now, stamps@).state);
            assert(crate::log::shown(log@) =~= crate::log::shown(old(log)@) + before.periodic(
                now,
                stamps@,
            ).lines);
            assert forall|peer: SocketAddr| #[trigger]
                self@.connections.contains_key(peer) implies self@.connections[peer].wf() by {
                assert(self.connections@.contains_key(peer));
            }
            assert forall|signature: Signature| #[trigger]
                self@.txs.contains_key(
                    signature,
                ) implies self@.connections.contains_key(self@.txs[signature])
                && self@.connections[self@.txs[signature]].user_tx_count > 0 by {
                assert(before.txs.contains_key(signature));
                let _ = lemma_kept_from(before.connections, now, stamps@, self@.txs[signature]);
            }
        }
    }

    /// Does the periodic work at `now`.  Nothing is done when the clock is needed and stands before
    /// the Unix epoch.
    pub fn periodic(&mut self, now: u64, log: &mut Vec<LogLine>) -> (done: Result<(), Fault>)
        requires
            old(self).wf(),
        ensures
            final(self).wf(),
            old(self)@.stamps_needed(now) == 0 ==> done is Ok,
            match done {
                Ok(()) => exists|stamps: Seq<u64>|
                    {
                        &&& stamps.len() == old(self)@.stamps_needed(now)
                        &&& crate::clock::all_showed(stamps)
                        &&& final(self)@ == (#[trigger] old(self)@.periodic(now, stamps)).state
                        &&& crate::log::shown(final(log)@) == crate::log::shown(old(log)@)
                            + old(self)@.periodic(now, stamps).lines
                    },
                Err(fault) => {
                    &&& fault == Fault::Clock
                    &&& crate::clock::clock_showed(None)
                    &&& final(self)@ == old(self)@
                    &&& final(log)@ == old(log)@
                },
            },
    {
        match self.read_stamps(now) {
            Some(stamps) => {
                self.periodic_at(now, &stamps, log);
                Ok(())
            },
            None => Err(Fault::Clock),
        }
    }
}

} // verus!
