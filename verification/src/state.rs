//! The state of the receiver and what each event does to it.
//!
//! An event changes the state and may log lines.  Some events also need to know what time it is.
//! Each of those has two functions: one that takes the time, which is all that the event depends on
//! besides the state, and one that reads the system clock and hands the reading to the first.

use crate::addr::{IpAddr, SocketAddr};
use crate::clock::now_millis;
use crate::connection::{Connection, ConnectionView, Exceeds, Failures};
use crate::leader::LeaderStatus;
use crate::log::{emit, Line, LogLine, LogView};
use crate::signature::Signature;
use crate::table::Table;
use vstd::prelude::*;

verus! {

/// Everything that is remembered between events.
pub struct State {
    /// How soon the validator is leader.
    pub leader_status: LeaderStatus,
    /// Failed attempts to connect, by host.
    pub failures: Table<IpAddr, Failures>,
    /// Attempts to connect beyond the connection limits, by host.
    pub exceeds: Table<IpAddr, Exceeds>,
    /// The connections.
    pub connections: Table<SocketAddr, Connection>,
    /// Which connection first delivered a transaction.
    pub txs: Table<Signature, SocketAddr>,
}

/// What contracts see of the state.
#[verifier::ext_equal]
pub struct StateView {
    pub leader_status: LeaderStatus,
    pub failures: Map<IpAddr, Failures>,
    pub exceeds: Map<IpAddr, Exceeds>,
    pub connections: Map<SocketAddr, ConnectionView>,
    pub txs: Map<Signature, SocketAddr>,
}

/// What an event leads to: the state after it, and the lines that it logs.
pub struct Outcome {
    pub state: StateView,
    pub lines: Seq<LogView>,
}

impl View for State {
    type V = StateView;

    open spec fn view(&self) -> StateView {
        StateView {
            leader_status: self.leader_status,
            failures: self.failures@,
            exceeds: self.exceeds@,
            connections: self.connections@.map_values(|connection: Connection| connection@),
            txs: self.txs@,
        }
    }
}

/// Why an event could not be handled.
#[derive(Clone, Copy, PartialEq, Eq, Structural, Debug)]
pub enum Fault {
    /// The system clock stands before the Unix epoch.
    Clock,
    /// A counter has no room for the event.
    Overflow,
}

impl StateView {
    /// Nothing has happened yet.
    pub open spec fn initial() -> StateView {
        StateView {
            leader_status: LeaderStatus::NotSoon,
            failures: Map::empty(),
            exceeds: Map::empty(),
            connections: Map::empty(),
            txs: Map::empty(),
        }
    }

    /// What holds in every state that events can lead to: each connection is sound, and the
    /// connection that first delivered a transaction is remembered as long as the transaction is.
    pub open spec fn wf(self) -> bool {
        &&& self.failures.dom().finite()
        &&& self.exceeds.dom().finite()
        &&& self.connections.dom().finite()
        &&& self.txs.dom().finite()
        &&& forall|peer: SocketAddr| #[trigger]
            self.connections.contains_key(peer) ==> self.connections[peer].wf()
        &&& forall|signature: Signature| #[trigger]
            self.txs.contains_key(signature) ==> self.connections.contains_key(self.txs[signature])
                && self.connections[self.txs[signature]].user_tx_count > 0
    }

    /// Failed attempts of `ip`.
    pub open spec fn failures_of(self, ip: IpAddr) -> Failures {
        if self.failures.contains_key(ip) {
            self.failures[ip]
        } else {
            Failures::none()
        }
    }

    /// Attempts of `ip` beyond the limits.
    pub open spec fn exceeds_of(self, ip: IpAddr) -> Exceeds {
        if self.exceeds.contains_key(ip) {
            self.exceeds[ip]
        } else {
            Exceeds::none()
        }
    }

    /// The connection of `peer`; one that was not known has been heard of at `now`.
    pub open spec fn connection_of(self, peer: SocketAddr, now: u64) -> ConnectionView {
        if self.connections.contains_key(peer) {
            self.connections[peer]
        } else {
            ConnectionView::heard_of(None, now, now)
        }
    }

    /// Who first delivered the transaction, if it is known.
    pub open spec fn sender_of(self, signature: Signature) -> Option<SocketAddr> {
        if self.txs.contains_key(signature) {
            Some(self.txs[signature])
        } else {
            None
        }
    }

    /// This state with another connection of `peer`.
    pub open spec fn with_connection(self, peer: SocketAddr, connection: ConnectionView) -> StateView {
        StateView { connections: self.connections.insert(peer, connection), ..self }
    }

    /// Can one more failed attempt of `ip` be counted?
    pub open spec fn room_for_failure(self, ip: IpAddr) -> bool {
        self.failures_of(ip).count < u64::MAX
    }

    /// Can one more attempt of `ip` beyond the limits be counted?
    pub open spec fn room_for_exceed(self, ip: IpAddr) -> bool {
        self.exceeds_of(ip).count < u64::MAX
    }

    /// Can one more vote transaction of `peer` be counted?
    pub open spec fn room_for_vote(self, peer: SocketAddr) -> bool {
        self.connections.contains_key(peer) ==> self.connections[peer].vote_tx_count < u64::MAX
    }

    /// Can one more user transaction of `peer` be counted?
    pub open spec fn room_for_user_tx(self, peer: SocketAddr) -> bool {
        self.connections.contains_key(peer) ==> self.connections[peer].user_tx_count < u64::MAX
    }

    /// Can it be counted that the transaction could not pay its fee?
    pub open spec fn room_for_badfee(self, signature: Signature) -> bool {
        self.sender_of(signature) matches Some(peer)
            ==> self.connections[peer].badfee_tx_count < u64::MAX
    }

    /// Can it be counted that the transaction paid `fee`?
    pub open spec fn room_for_fee(self, signature: Signature, fee: u64) -> bool {
        self.sender_of(signature) matches Some(peer) ==> {
            &&& self.connections[peer].fee_tx_count < u64::MAX
            &&& self.connections[peer].total_fees + fee <= u64::MAX
        }
    }

    /// An attempt of `ip` to connect failed at `now`.
    pub open spec fn failed(self, ip: IpAddr, now: u64) -> Outcome {
        let failures = self.failures_of(ip);
        Outcome {
            state: StateView { failures: self.failures.insert(ip, failures.after(now)), ..self },
            lines: if failures.due(now) {
                seq![Line::Failed { timestamp: now, host: ip, count: (failures.count + 1) as u64 }]
            } else {
                seq![]
            },
        }
    }

    /// An attempt of `ip` to connect exceeded the limits at `now`.
    pub open spec fn exceeded(self, ip: IpAddr, stake: u64, now: u64) -> Outcome {
        let exceeds = self.exceeds_of(ip);
        Outcome {
            state: StateView { exceeds: self.exceeds.insert(ip, exceeds.after(now, stake)), ..self },
            lines: if exceeds.due(now) {
                seq![
                    Line::Exceeded {
                        timestamp: now,
                        host: ip,
                        stake,
                        count: (exceeds.count + 1) as u64,
                    },
                ]
            } else {
                seq![]
            },
        }
    }

    /// The start of a connection was reported; `now` matters only if the connection was not known.
    pub open spec fn stake(self, timestamp: u64, peer: SocketAddr, stake: u64, now: u64) -> Outcome {
        Outcome {
            state: self.with_connection(
                peer,
                if self.connections.contains_key(peer) {
                    self.connections[peer].with_stake(stake)
                } else {
                    ConnectionView::heard_of(Some(stake), timestamp, now)
                },
            ),
            lines: seq![Line::Started { timestamp, peer, stake }],
        }
    }

    /// The validator ended a connection.
    pub open spec fn pruned(self, timestamp: u64, peer: SocketAddr) -> StateView {
        if self.connections.contains_key(peer) {
            self.with_connection(peer, self.connections[peer].pruned(timestamp))
        } else {
            self
        }
    }

    /// The remote peer ended a connection.
    pub open spec fn closed(self, timestamp: u64, peer: SocketAddr) -> StateView {
        if self.connections.contains_key(peer) {
            self.with_connection(peer, self.connections[peer].closed(timestamp))
        } else {
            self
        }
    }

    /// A vote transaction arrived; `now` matters only if the connection was not known.
    pub open spec fn votetx(self, peer: SocketAddr, now: u64) -> StateView {
        self.with_connection(peer, self.connection_of(peer, now).with_vote())
    }

    /// A user transaction arrived; `now` matters only if the connection was not known.
    pub open spec fn usertx(
        self,
        show_tx: bool,
        timestamp: u64,
        peer: SocketAddr,
        signature: Signature,
        now: u64,
    ) -> Outcome {
        let sender = self.sender_of(signature);
        let connection = self.connection_of(peer, now).with_user_tx(timestamp, peer, sender);
        Outcome {
            state: StateView {
                txs: if sender is None {
                    self.txs.insert(signature, peer)
                } else {
                    self.txs
                },
                ..self.with_connection(peer, connection)
            },
            lines: if show_tx {
                seq![Line::Tx { timestamp, peer, signature, leader: self.leader_status }]
            } else {
                seq![]
            },
        }
    }

    /// A transaction could not pay its fee.
    pub open spec fn badfee(self, signature: Signature) -> StateView {
        match self.sender_of(signature) {
            Some(peer) => self.with_connection(peer, self.connections[peer].with_badfee()),
            None => self,
        }
    }

    /// A transaction paid its fee.
    pub open spec fn fee(self, show_tx: bool, timestamp: u64, signature: Signature, fee: u64) -> Outcome {
        match self.sender_of(signature) {
            Some(peer) => Outcome {
                state: self.with_connection(peer, self.connections[peer].with_fee(fee)),
                lines: if show_tx {
                    seq![Line::Fee { timestamp, peer, signature, fee }]
                } else {
                    seq![]
                },
            },
            None => Outcome { state: self, lines: seq![] },
        }
    }

    /// The validator will be leader in `slots` slots.
    pub open spec fn will_be_leader(self, timestamp: u64, slots: u8) -> Outcome {
        Outcome {
            state: StateView { leader_status: LeaderStatus::within(slots), ..self },
            lines: seq![Line::LeaderUpcoming { timestamp, slots }],
        }
    }

    /// The validator is leader from now on.
    pub open spec fn begin_leader(self, timestamp: u64) -> Outcome {
        Outcome {
            state: StateView { leader_status: LeaderStatus::Leader, ..self },
            lines: seq![Line::LeaderBegin { timestamp }],
        }
    }

    /// The validator is no longer leader.
    pub open spec fn end_leader(self, timestamp: u64) -> Outcome {
        Outcome {
            state: StateView { leader_status: LeaderStatus::NotSoon, ..self },
            lines: seq![Line::LeaderEnd { timestamp }],
        }
    }
}

impl Default for State {
    fn default() -> (state: State)
        ensures
            state.wf(),
            state@ == StateView::initial(),
    {
        State::new()
    }
}

impl State {
    /// Is the representation sound, and the state one that events can lead to?
    pub open spec fn wf(&self) -> bool {
        &&& self.failures.wf()
        &&& self.exceeds.wf()
        &&& self.connections.wf()
        &&& self.txs.wf()
        &&& forall|peer: SocketAddr| #[trigger]
            self.connections@.contains_key(peer) ==> self.connections@[peer].wf()
        &&& self@.wf()
    }

    /// Nothing has happened yet.
    pub fn new() -> (state: State)
        ensures
            state.wf(),
            state@ == StateView::initial(),
    {
        let state = State {
            leader_status: LeaderStatus::NotSoon,
            failures: Table::new(),
            exceeds: Table::new(),
            connections: Table::new(),
            txs: Table::new(),
        };
        assert(state@ =~= StateView::initial());
        state
    }

    /// An attempt of a host to connect failed at `now`.
    pub fn failed_at(&mut self, now: u64, peer_addr: SocketAddr, log: &mut Vec<LogLine>)
        requires
            old(self).wf(),
            old(self)@.room_for_failure(peer_addr.ip),
        ensures
            final(self).wf(),
            final(self)@ == old(self)@.failed(peer_addr.ip, now).state,
            crate::log::shown(final(log)@) == crate::log::shown(old(log)@) + old(self)@.failed(
                peer_addr.ip,
                now,
            ).lines,
    {
        let ip = peer_addr.ip;
        let mut failures = match self.failures.get(&ip) {
            Some(failures) => *failures,
            None => Failures::default(),
        };
        if let Some(count) = failures.record(now) {
            emit(log, Line::Failed { timestamp: now, host: ip, count });
        } else {
            assert(crate::log::shown(old(log)@) + Seq::<LogView>::empty() =~= crate::log::shown(
                old(log)@,
            ));
        }
        self.failures.insert(ip, failures);
        assert(self@ =~= old(self)@.failed(ip, now).state);
    }

    /// An attempt of a host to connect failed.
    pub fn failed(&mut self, _timestamp: u64, peer_addr: SocketAddr, log: &mut Vec<LogLine>) -> (done:
        Result<(), Fault>)
        requires
            old(self).wf(),
            old(self)@.room_for_failure(peer_addr.ip),
        ensures
            final(self).wf(),
            match done {
                Ok(()) => exists|now: u64|
                    {
                        &&& crate::clock::clock_showed(Some(now))
                        &&& final(self)@ == (#[trigger] old(self)@.failed(peer_addr.ip, now)).state
                        &&& crate::log::shown(final(log)@) == crate::log::shown(old(log)@)
                            + old(self)@.failed(peer_addr.ip, now).lines
                    },
                Err(fault) => {
                    &&& fault == Fault::Clock
                    &&& crate::clock::clock_showed(None)
                    &&& final(self)@ == old(self)@
                    &&& final(log)@ == old(log)@
                },
            },
    {
        match now_millis() {
            Some(now) => {
                self.failed_at(now, peer_addr, log);
                Ok(())
            },
            None => Err(Fault::Clock),
        }
    }

    /// An attempt of a host to connect exceeded the connection limits at `now`.
    pub fn exceeded_at(&mut self, now: u64, peer_addr: SocketAddr, stake: u64, log: &mut Vec<LogLine>)
        requires
            old(self).wf(),
            old(self)@.room_for_exceed(peer_addr.ip),
        ensures
            final(self).wf(),
            final(self)@ == old(self)@.exceeded(peer_addr.ip, stake, now).state,
            crate::log::shown(final(log)@) == crate::log::shown(old(log)@) + old(self)@.exceeded(
                peer_addr.ip,
                stake,
                now,
            ).lines,
    {
        let ip = peer_addr.ip;
        let mut exceeds = match self.exceeds.get(&ip) {
            Some(exceeds) => *exceeds,
            None => Exceeds::default(),
        };
        if let Some(count) = exceeds.record(now, stake) {
            emit(log, Line::Exceeded { timestamp: now, host: ip, stake, count });
        } else {
            assert(crate::log::shown(old(log)@) + Seq::<LogView>::empty() =~= crate::log::shown(
                old(log)@,
            ));
        }
        self.exceeds.insert(ip, exceeds);
        assert(self@ =~= old(self)@.exceeded(ip, stake, now).state);
    }

    /// An attempt of a host to connect exceeded the connection limits.
    pub fn exceeded(
        &mut self,
        _timestamp: u64,
        peer_addr: SocketAddr,
        stake: u64,
        log: &mut Vec<LogLine>,
    ) -> (done: Result<(), Fault>)
        requires
            old(self).wf(),
            old(self)@.room_for_exceed(peer_addr.ip),
        ensures
            final(self).wf(),
            match done {
                Ok(()) => exists|now: u64|
                    {
                        &&& crate::clock::clock_showed(Some(now))
                        &&& final(self)@ == (#[trigger] old(self)@.exceeded(
                            peer_addr.ip,
                            stake,
                            now,
                        )).state
                        &&& crate::log::shown(final(log)@) == crate::log::shown(old(log)@)
                            + old(self)@.exceeded(peer_addr.ip, stake, now).lines
                    },
                Err(fault) => {
                    &&& fault == Fault::Clock
                    &&& crate::clock::clock_showed(None)
                    &&& final(self)@ == old(self)@
                    &&& final(log)@ == old(log)@
                },
            },
    {
        match now_millis() {
            Some(now) => {
                self.exceeded_at(now, peer_addr, stake, log);
                Ok(())
            },
            None => Err(Fault::Clock),
        }
    }

    /// The start of a connection was reported.  `now` is when a connection that was not known has
    /// been heard of.
    pub fn stake_at(
        &mut self,
        now: u64,
        timestamp: u64,
        peer_addr: SocketAddr,
        stake: u64,
        log: &mut Vec<LogLine>,
    )
        requires
            old(self).wf(),
        ensures
            final(self).wf(),
            final(self)@ == old(self)@.stake(timestamp, peer_addr, stake, now).state,
            crate::log::shown(final(log)@) == crate::log::shown(old(log)@) + old(self)@.stake(
                timestamp,
                peer_addr,
                stake,
                now,
            ).lines,
    {
        emit(log, Line::Started { timestamp, peer: peer_addr, stake });
        // The validator may report the start of one connection several times in a row; only the
        // stake of a connection that was known in part is news then.
        let connection = match self.connections.remove(&peer_addr) {
            Some(mut connection) => {
                connection.restake(stake);
                connection
            },
            None => Connection::new(Some(stake), timestamp, now),
        };
        self.connections.insert(peer_addr, connection);
        assert(self@ =~= old(self)@.stake(timestamp, peer_addr, stake, now).state);
    }

    /// The start of a connection was reported.  The clock is read only for a connection that was not
    /// known; when it fails then, the start has been logged and nothing is kept.
    pub fn stake(
        &mut self,
        timestamp: u64,
        peer_addr: SocketAddr,
        stake: u64,
        log: &mut Vec<LogLine>,
    ) -> (done: Result<(), Fault>)
        requires
            old(self).wf(),
        ensures
            final(self).wf(),
            old(self)@.connections.contains_key(peer_addr) ==> done is Ok,
            match done {
                Ok(()) => exists|now: u64|
                    {
                        &&& old(self)@.connections.contains_key(peer_addr)
                            || crate::clock::clock_showed(Some(now))
                        &&& final(self)@ == (#[trigger] old(self)@.stake(
                            timestamp,
                            peer_addr,
                            stake,
                            now,
                        )).state
                    },
                Err(fault) => {
                    &&& fault == Fault::Clock
                    &&& crate::clock::clock_showed(None)
                    &&& final(self)@ == old(self)@
                },
            },
            crate::log::shown(final(log)@) == crate::log::shown(old(log)@).push(
                Line::Started { timestamp, peer: peer_addr, stake },
            ),
    {
        let now: u64 = if self.connections.contains_key(&peer_addr) {
            timestamp
        } else {
            match now_millis() {
                Some(now) => now,
                None => {
                    emit(log, Line::Started { timestamp, peer: peer_addr, stake });
                    return Err(Fault::Clock);
                },
            }
        };
        self.stake_at(now, timestamp, peer_addr, stake, log);
        assert(crate::log::shown(log@) =~= crate::log::shown(old(log)@).push(
            Line::Started { timestamp, peer: peer_addr, stake },
        ));
        Ok(())
    }

    /// The validator ended a connection, which need not be known.
    pub fn pruned(&mut self, timestamp: u64, peer_addr: SocketAddr)
        requires
            old(self).wf(),
        ensures
            final(self).wf(),
            final(self)@ == old(self)@.pruned(timestamp, peer_addr),
    {
        if let Some(mut connection) = self.connections.remove(&peer_addr) {
            connection.prune(timestamp);
            self.connections.insert(peer_addr, connection);
        }
        assert(self@ =~= old(self)@.pruned(timestamp, peer_addr));
    }

    /// The remote peer ended a connection, which need not be known.
    pub fn closed(&mut self, timestamp: u64, peer_addr: SocketAddr)
        requires
            old(self).wf(),
        ensures
            final(self).wf(),
            final(self)@ == old(self)@.closed(timestamp, peer_addr),
    {
        if let Some(mut connection) = self.connections.remove(&peer_addr) {
            connection.close(timestamp);
            self.connections.insert(peer_addr, connection);
        }
        assert(self@ =~= old(self)@.closed(timestamp, peer_addr));
    }

    /// A vote transaction arrived.  `now` is when a connection that was not known has been heard of.
    pub fn votetx_at(&mut self, now: u64, peer_addr: IpAddr, peer_port: u16)
        requires
            old(self).wf(),
            old(self)@.room_for_vote(SocketAddr { ip: peer_addr, port: peer_port }),
        ensures
            final(self).wf(),
            final(self)@ == old(self)@.votetx(SocketAddr { ip: peer_addr, port: peer_port }, now),
    {
        let peer = SocketAddr::new(peer_addr, peer_port);
        let mut connection = match self.connections.remove(&peer) {
            Some(connection) => connection,
            None => Connection::new(None, now, now),
        };
        connection.add_vote();
        self.connections.insert(peer, connection);
        assert(self@ =~= old(self)@.votetx(peer, now));
    }

    /// A vote transaction arrived.  The clock is read only for a connection that was not known.
    pub fn votetx(&mut self, timestamp: u64, peer_addr: IpAddr, peer_port: u16) -> (done: Result<
        (),
        Fault,
    >)
        requires
            old(self).wf(),
            old(self)@.room_for_vote(SocketAddr { ip: peer_addr, port: peer_port }),
        ensures
            final(self).wf(),
            old(self)@.connections.contains_key(SocketAddr { ip: peer_addr, port: peer_port })
                ==> done is Ok,
            match done {
                Ok(()) => exists|now: u64|
                    {
                        &&& old(self)@.connections.contains_key(
                            SocketAddr { ip: peer_addr, port: peer_port },
                        ) || crate::clock::clock_showed(Some(now))
                        &&& final(self)@ == #[trigger] old(self)@.votetx(
                            SocketAddr { ip: peer_addr, port: peer_port },
                            now,
                        )
                    },
                Err(fault) => {
                    &&& fault == Fault::Clock
                    &&& crate::clock::clock_showed(None)
                    &&& final(self)@ == old(self)@
                },
            },
    {
        let now: u64 = if self.connections.contains_key(&SocketAddr::new(peer_addr, peer_port)) {
            timestamp
        } else {
            match now_millis() {
                Some(now) => now,
                None => {
                    return Err(Fault::Clock);
                },
            }
        };
        self.votetx_at(now, peer_addr, peer_port);
        Ok(())
    }

    /// A user transaction arrived.  `now` is when a connection that was not known has been heard of.
    pub fn usertx_at(
        &mut self,
        now: u64,
        show_tx: bool,
        timestamp: u64,
        peer_addr: IpAddr,
        peer_port: u16,
        signature: Signature,
        log: &mut Vec<LogLine>,
    )
        requires
            old(self).wf(),
            old(self)@.room_for_user_tx(SocketAddr { ip: peer_addr, port: peer_port }),
        ensures
            final(self).wf(),
            final(self)@ == old(self)@.usertx(
                show_tx,
                timestamp,
                SocketAddr { ip: peer_addr, port: peer_port },
                signature,
                now,
            ).state,
            crate::log::shown(final(log)@) == crate::log::shown(old(log)@) + old(self)@.usertx(
                show_tx,
                timestamp,
                SocketAddr { ip: peer_addr, port: peer_port },
                signature,
                now,
            ).lines,
    {
        let peer = SocketAddr::new(peer_addr, peer_port);
        if show_tx {
            emit(log, Line::Tx { timestamp, peer, signature, leader: self.leader_status });
        } else {
            assert(crate::log::shown(old(log)@) + Seq::<LogView>::empty() =~= crate::log::shown(
                old(log)@,
            ));
        }
        let mut connection = match self.connections.remove(&peer) {
            Some(connection) => connection,
            None => Connection::new(None, now, now),
        };
        let sender: Option<SocketAddr> = match self.txs.get(&signature) {
            Some(sender) => Some(*sender),
            None => None,
        };
        connection.add_user_tx(timestamp, peer, sender);
        if sender.is_none() {
            self.txs.insert(signature, peer);
        }
        self.connections.insert(peer, connection);
        assert(self@ =~= old(self)@.usertx(show_tx, timestamp, peer, signature, now).state);
    }

    /// A user transaction arrived.  The clock is read only for a connection that was not known; when
    /// it fails then, the transaction has been logged, if transactions are, and nothing is kept.
    pub fn usertx(
        &mut self,
        show_tx: bool,
        timestamp: u64,
        peer_addr: IpAddr,
        peer_port: u16,
        signature: Signature,
        log: &mut Vec<LogLine>,
    ) -> (done: Result<(), Fault>)
        requires
            old(self).wf(),
            old(self)@.room_for_user_tx(SocketAddr { ip: peer_addr, port: peer_port }),
        ensures
            final(self).wf(),
            old(self)@.connections.contains_key(SocketAddr { ip: peer_addr, port: peer_port })
                ==> done is Ok,
            match done {
                Ok(()) => exists|now: u64|
                    {
                        &&& old(self)@.connections.contains_key(
                            SocketAddr { ip: peer_addr, port: peer_port },
                        ) || crate::clock::clock_showed(Some(now))
                        &&& final(self)@ == (#[trigger] old(self)@.usertx(
                            show_tx,
                            timestamp,
                            SocketAddr { ip: peer_addr, port: peer_port },
                            signature,
                            now,
                        )).state
                    },
                Err(fault) => {
                    &&& fault == Fault::Clock
                    &&& crate::clock::clock_showed(None)
                    &&& final(self)@ == old(self)@
                },
            },
            crate::log::shown(final(log)@) == if show_tx {
                crate::log::shown(old(log)@).push(
                    Line::Tx {
                        timestamp,
                        peer: SocketAddr { ip: peer_addr, port: peer_port },
                        signature,
                        leader: old(self)@.leader_status,
                    },
                )
            } else {
                crate::log::shown(old(log)@)
            },
    {
        let peer = SocketAddr::new(peer_addr, peer_port);
        let now: u64 = if self.connections.contains_key(&peer) {
            timestamp
        } else {
            match now_millis() {
                Some(now) => now,
                None => {
                    if show_tx {
                        emit(
                            log,
                            Line::Tx { timestamp, peer, signature, leader: self.leader_status },
                        );
                    }
                    return Err(Fault::Clock);
                },
            }
        };
        self.usertx_at(now, show_tx, timestamp, peer_addr, peer_port, signature, log);
        assert(crate::log::shown(log@) =~= if show_tx {
            crate::log::shown(old(log)@).push(
                Line::Tx { timestamp, peer, signature, leader: old(self)@.leader_status },
            )
        } else {
            crate::log::shown(old(log)@)
        });
        Ok(())
    }

    /// A transaction was forwarded: nothing is kept of that.
    pub fn forwarded(&mut self, _timestamp: u64, _signature: Signature)
        requires
            old(self).wf(),
        ensures
            final(self).wf(),
            final(self)@ == old(self)@,
    {
    }

    /// A transaction could not pay its fee.
    pub fn badfee(&mut self, _timestamp: u64, signature: Signature)
        requires
            old(self).wf(),
            old(self)@.room_for_badfee(signature),
        ensures
            final(self).wf(),
            final(self)@ == old(self)@.badfee(signature),
    {
        if let Some(sender) = self.txs.get(&signature) {
            let peer = *sender;
            // The connection is there: it is forgotten no sooner than its transactions.
            if let Some(mut connection) = self.connections.remove(&peer) {
                connection.add_badfee();
                self.connections.insert(peer, connection);
            }
        }
        assert(self@ =~= old(self)@.badfee(signature));
    }

    /// A transaction paid its fee.
    pub fn fee(
        &mut self,
        show_tx: bool,
        timestamp: u64,
        signature: Signature,
        fee: u64,
        log: &mut Vec<LogLine>,
    )
        requires
            old(self).wf(),
            old(self)@.room_for_fee(signature, fee),
        ensures
            final(self).wf(),
            final(self)@ == old(self)@.fee(show_tx, timestamp, signature, fee).state,
            crate::log::shown(final(log)@) == crate::log::shown(old(log)@) + old(self)@.fee(
                show_tx,
                timestamp,
                signature,
                fee,
            ).lines,
    {
        assert(crate::log::shown(log@) + Seq::<LogView>::empty() =~= crate::log::shown(log@));
        if let Some(sender) = self.txs.get(&signature) {
            let peer = *sender;
            if show_tx {
                emit(log, Line::Fee { timestamp, peer, signature, fee });
            }
            // The connection is there: it is forgotten no sooner than its transactions.
            if let Some(mut connection) = self.connections.remove(&peer) {
                connection.add_fee(fee);
                self.connections.insert(peer, connection);
            }
        }
        assert(self@ =~= old(self)@.fee(show_tx, timestamp, signature, fee).state);
    }

    /// The validator will be leader in `slots` slots.
    pub fn will_be_leader(&mut self, timestamp: u64, slots: u8, log: &mut Vec<LogLine>)
        requires
            old(self).wf(),
        ensures
            final(self).wf(),
            final(self)@ == old(self)@.will_be_leader(timestamp, slots).state,
            crate::log::shown(final(log)@) == crate::log::shown(old(log)@)
                + old(self)@.will_be_leader(timestamp, slots).lines,
    {
        emit(log, Line::LeaderUpcoming { timestamp, slots });
        self.leader_status = LeaderStatus::from_slots(slots);
        assert(self@ =~= old(self)@.will_be_leader(timestamp, slots).state);
    }

    /// The validator is leader from now on.
    pub fn begin_leader(&mut self, timestamp: u64, log: &mut Vec<LogLine>)
        requires
            old(self).wf(),
        ensures
            final(self).wf(),
            final(self)@ == old(self)@.begin_leader(timestamp).state,
            crate::log::shown(final(log)@) == crate::log::shown(old(log)@)
                + old(self)@.begin_leader(timestamp).lines,
    {
        emit(log, Line::LeaderBegin { timestamp });
        self.leader_status = LeaderStatus::Leader;
        assert(self@ =~= old(self)@.begin_leader(timestamp).state);
    }

    /// The validator is no longer leader.
    pub fn end_leader(&mut self, timestamp: u64, log: &mut Vec<LogLine>)
        requires
            old(self).wf(),
        ensures
            final(self).wf(),
            final(self)@ == old(self)@.end_leader(timestamp).state,
            crate::log::shown(final(log)@) == crate::log::shown(old(log)@)
                + old(self)@.end_leader(timestamp).lines,
    {
        emit(log, Line::LeaderEnd { timestamp });
        self.leader_status = LeaderStatus::NotSoon;
        assert(self@ =~= old(self)@.end_leader(timestamp).state);
    }
}

} // verus!
