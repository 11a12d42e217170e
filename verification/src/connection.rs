//! What is kept about remote peers and about their connections.

use crate::addr::{IpAddr, SocketAddr};
use crate::clock::passed;
use crate::log::{Action, Line, LogLine, LogView, Summary};
use crate::table::Table;
use vstd::prelude::*;

verus! {

/// How long a count of failed attempts waits before it is logged.
pub const TALLY_WAIT: u64 = 1000;

/// How many failed attempts are logged without waiting.
pub const TALLY_LIMIT: u64 = 100;

/// How long a peer is remembered after its failed attempts were last logged.
pub const TALLY_LIFE: u64 = 10000;

/// How long a connection waits between two summaries, and after its start before it is inactive.
pub const SUMMARY_WAIT: u64 = 10000;

/// How long an ended connection waits for the fees of its latest transaction.
pub const FEES_WAIT: u64 = 30000;

/// Attempts to connect of one host that are counted until they are logged.
pub trait Tally: Sized {
    /// When they were last logged.
    spec fn logged_at(self) -> u64;

    /// Have there been any since they were last logged?
    spec fn pending(self) -> bool;

    /// How many there have been since they were last logged.
    spec fn waiting(self) -> u64;

    /// The line that logs them for `host` at `now`.
    spec fn line(self, now: u64, host: IpAddr) -> LogView;

    /// Lines of different hosts differ.
    proof fn lemma_line_names_host(self, now: u64, host: IpAddr, other: Self, other_host: IpAddr)
        requires
            self.line(now, host) == other.line(now, other_host),
        ensures
            host == other_host,
    ;

    fn get_logged_at(&self) -> (timestamp: u64)
        ensures
            timestamp == self.logged_at(),
    ;

    fn get_waiting(&self) -> (count: u64)
        ensures
            count == self.waiting(),
    ;

    fn to_line(&self, now: u64, host: IpAddr) -> (line: LogLine)
        ensures
            line@ == self.line(now, host),
    ;
}

/// Is the host of `tally` to be forgotten at `now`?
pub open spec fn expired<T: Tally>(tally: T, now: u64) -> bool {
    crate::clock::has_passed(now, tally.logged_at(), TALLY_LIFE)
}

/// Attempts of one host to connect that failed.
#[derive(Clone, Copy, PartialEq, Eq, Structural, Debug)]
pub struct Failures {
    /// When they were last logged; 0 before there was a first attempt.
    pub log_timestamp: u64,
    /// Have there been any since they were last logged?
    pub changed: bool,
    /// How many there have been since they were last logged.
    pub count: u64,
}

impl Default for Failures {
    fn default() -> (failures: Failures)
        ensures
            failures == Failures::none(),
    {
        Failures { log_timestamp: 0, changed: false, count: 0 }
    }
}

impl Failures {
    /// No attempt yet.
    pub open spec fn none() -> Failures {
        Failures { log_timestamp: 0, changed: false, count: 0 }
    }

    /// Is one more attempt at `now` to be logged, together with those before it?
    pub open spec fn due(self, now: u64) -> bool {
        &&& self.log_timestamp != 0
        &&& {
            ||| self.count + 1 == TALLY_LIMIT
            ||| crate::clock::has_passed(now, self.log_timestamp, TALLY_WAIT)
        }
    }

    /// What is kept after one more attempt at `now`.
    pub open spec fn after(self, now: u64) -> Failures {
        if self.due(now) {
            Failures { log_timestamp: now, changed: false, count: 0 }
        } else {
            Failures {
                log_timestamp: if self.log_timestamp == 0 {
                    now
                } else {
                    self.log_timestamp
                },
                changed: true,
                count: (self.count + 1) as u64,
            }
        }
    }

    /// Counts one more attempt at `now`; returns how many are to be logged, if any are.
    pub fn record(&mut self, now: u64) -> (logged: Option<u64>)
        requires
            old(self).count < u64::MAX,
        ensures
            *final(self) == old(self).after(now),
            logged == if old(self).due(now) {
                Some((old(self).count + 1) as u64)
            } else {
                None
            },
    {
        self.count = self.count + 1;
        if self.log_timestamp == 0 {
            self.log_timestamp = now;
            self.changed = true;
            None
        } else if self.count == TALLY_LIMIT || passed(now, self.log_timestamp, TALLY_WAIT) {
            let count = self.count;
            self.log_timestamp = now;
            self.changed = false;
            self.count = 0;
            Some(count)
        } else {
            self.changed = true;
            None
        }
    }
}

impl Tally for Failures {
    open spec fn logged_at(self) -> u64 {
        self.log_timestamp
    }

    open spec fn pending(self) -> bool {
        self.changed
    }

    open spec fn waiting(self) -> u64 {
        self.count
    }

    open spec fn line(self, now: u64, host: IpAddr) -> LogView {
        Line::Failed { timestamp: now, host, count: self.count }
    }

    proof fn lemma_line_names_host(self, now: u64, host: IpAddr, other: Self, other_host: IpAddr) {
    }

    fn get_logged_at(&self) -> (timestamp: u64) {
        self.log_timestamp
    }

    fn get_waiting(&self) -> (count: u64) {
        self.count
    }

    fn to_line(&self, now: u64, host: IpAddr) -> (line: LogLine) {
        Line::Failed { timestamp: now, host, count: self.count }
    }
}

/// Attempts of one host to connect that exceeded the connection limits.
#[derive(Clone, Copy, PartialEq, Eq, Structural, Debug)]
pub struct Exceeds {
    /// When they were last logged; 0 before there was a first attempt.
    pub log_timestamp: u64,
    /// Lamports of stake of the peer.
    pub stake: u64,
    /// Have there been any since they were last logged?
    pub changed: bool,
    /// How many there have been since they were last logged.
    pub count: u64,
}

impl Default for Exceeds {
    fn default() -> (exceeds: Exceeds)
        ensures
            exceeds == Exceeds::none(),
    {
        Exceeds { log_timestamp: 0, stake: 0, changed: false, count: 0 }
    }
}

impl Exceeds {
    /// No attempt yet.
    pub open spec fn none() -> Exceeds {
        Exceeds { log_timestamp: 0, stake: 0, changed: false, count: 0 }
    }

    /// Is one more attempt at `now` to be logged, together with those before it?
    pub open spec fn due(self, now: u64) -> bool {
        &&& self.log_timestamp != 0
        &&& {
            ||| self.count + 1 == TALLY_LIMIT
            ||| crate::clock::has_passed(now, self.log_timestamp, TALLY_WAIT)
        }
    }

    /// What is kept after one more attempt at `now`, by a peer with `stake`.
    pub open spec fn after(self, now: u64, stake: u64) -> Exceeds {
        if self.due(now) {
            Exceeds { log_timestamp: now, stake, changed: false, count: 0 }
        } else {
            Exceeds {
                log_timestamp: if self.log_timestamp == 0 {
                    now
                } else {
                    self.log_timestamp
                },
                stake,
                changed: true,
                count: (self.count + 1) as u64,
            }
        }
    }

    /// Counts one more attempt at `now`, by a peer with `stake`; returns how many are to be logged,
    /// if any are.
    pub fn record(&mut self, now: u64, stake: u64) -> (logged: Option<u64>)
        requires
            old(self).count < u64::MAX,
        ensures
            *final(self) == old(self).after(now, stake),
            logged == if old(self).due(now) {
                Some((old(self).count + 1) as u64)
            } else {
                None
            },
    {
        self.stake = stake;
        self.count = self.count + 1;
        if self.log_timestamp == 0 {
            self.log_timestamp = now;
            self.changed = true;
            None
        } else if self.count == TALLY_LIMIT || passed(now, self.log_timestamp, TALLY_WAIT) {
            let count = self.count;
            self.log_timestamp = now;
            self.changed = false;
            self.count = 0;
            Some(count)
        } else {
            self.changed = true;
            None
        }
    }
}

impl Tally for Exceeds {
    open spec fn logged_at(self) -> u64 {
        self.log_timestamp
    }

    open spec fn pending(self) -> bool {
        self.changed
    }

    open spec fn waiting(self) -> u64 {
        self.count
    }

    open spec fn line(self, now: u64, host: IpAddr) -> LogView {
        Line::Exceeded { timestamp: now, host, stake: self.stake, count: self.count }
    }

    proof fn lemma_line_names_host(self, now: u64, host: IpAddr, other: Self, other_host: IpAddr) {
    }

    fn get_logged_at(&self) -> (timestamp: u64) {
        self.log_timestamp
    }

    fn get_waiting(&self) -> (count: u64) {
        self.count
    }

    fn to_line(&self, now: u64, host: IpAddr) -> (line: LogLine) {
        Line::Exceeded { timestamp: now, host, stake: self.stake, count: self.count }
    }
}

/// Is a connection open, and if not, who ended it?
#[derive(Clone, Copy, PartialEq, Eq, Structural, Debug)]
pub enum ConnectionState {
    /// Open and active.
    Open,
    /// Ended by the validator.
    Pruned,
    /// Ended by the remote peer.
    Closed,
}

/// One QUIC connection.
pub struct Connection {
    /// Was the connection first heard of by something other than its start?
    pub is_partial: bool,
    /// Lamports of stake assigned to the connection.
    pub stake: u64,
    pub state: ConnectionState,
    /// When the connection was made.
    pub start_timestamp: u64,
    /// When the connection was ended.
    pub end_timestamp: u64,
    /// When its latest user transaction arrived.
    pub user_tx_timestamp: u64,
    /// Was it logged as inactive?
    pub inactive_logged: bool,
    /// When it was last summed up.
    pub log_timestamp: u64,
    /// Has anything changed since it was last summed up?
    pub changed: bool,
    /// How many of its transactions had been sent before, on any connection.
    pub dup_tx_count: u64,
    /// The hosts of other connections that had sent such transactions.
    pub dup_peers: Table<IpAddr, ()>,
    pub vote_tx_count: u64,
    pub user_tx_count: u64,
    /// How many of its transactions could not pay their fee.
    pub badfee_tx_count: u64,
    /// How many of its transactions paid their fee.
    pub fee_tx_count: u64,
    /// The lowest fee paid; `u64::MAX` before there was one.
    pub min_fee: u64,
    /// The highest fee paid.
    pub max_fee: u64,
    pub total_fees: u64,
}

/// What contracts see of a connection.
#[verifier::ext_equal]
pub struct ConnectionView {
    pub is_partial: bool,
    pub stake: u64,
    pub state: ConnectionState,
    pub start_timestamp: u64,
    pub end_timestamp: u64,
    pub user_tx_timestamp: u64,
    pub inactive_logged: bool,
    pub log_timestamp: u64,
    pub changed: bool,
    pub dup_tx_count: u64,
    pub dup_peers: Set<IpAddr>,
    pub vote_tx_count: u64,
    pub user_tx_count: u64,
    pub badfee_tx_count: u64,
    pub fee_tx_count: u64,
    pub min_fee: u64,
    pub max_fee: u64,
    pub total_fees: u64,
}

impl View for Connection {
    type V = ConnectionView;

    open spec fn view(&self) -> ConnectionView {
        ConnectionView {
            is_partial: self.is_partial,
            stake: self.stake,
            state: self.state,
            start_timestamp: self.start_timestamp,
            end_timestamp: self.end_timestamp,
            user_tx_timestamp: self.user_tx_timestamp,
            inactive_logged: self.inactive_logged,
            log_timestamp: self.log_timestamp,
            changed: self.changed,
            dup_tx_count: self.dup_tx_count,
            dup_peers: self.dup_peers@.dom(),
            vote_tx_count: self.vote_tx_count,
            user_tx_count: self.user_tx_count,
            badfee_tx_count: self.badfee_tx_count,
            fee_tx_count: self.fee_tx_count,
            min_fee: self.min_fee,
            max_fee: self.max_fee,
            total_fees: self.total_fees,
        }
    }
}

/// What a sweep does about a connection.
#[derive(Clone, Copy, PartialEq, Eq, Structural, Debug)]
pub enum Verdict {
    /// Nothing.
    Keep,
    /// Sums it up and keeps it.
    Active,
    /// Logs it as inactive and keeps it.
    Inactive,
    /// Sums it up, names the hosts whose transactions it repeated, and forgets it.
    End(Action),
}

/// `a - b`, but not below 0.
pub open spec fn monus(a: u64, b: u64) -> u64 {
    if a > b {
        (a - b) as u64
    } else {
        0
    }
}

impl ConnectionView {
    /// A connection that has just been heard of, with its stake if that is known.
    pub open spec fn heard_of(
        stake: Option<u64>,
        start_timestamp: u64,
        log_timestamp: u64,
    ) -> ConnectionView {
        ConnectionView {
            is_partial: stake is None,
            stake: match stake {
                Some(stake) => stake,
                None => 0,
            },
            state: ConnectionState::Open,
            start_timestamp,
            end_timestamp: 0,
            user_tx_timestamp: 0,
            inactive_logged: false,
            log_timestamp,
            changed: false,
            dup_tx_count: 0,
            dup_peers: Set::empty(),
            vote_tx_count: 0,
            user_tx_count: 0,
            badfee_tx_count: 0,
            fee_tx_count: 0,
            min_fee: u64::MAX,
            max_fee: 0,
            total_fees: 0,
        }
    }

    /// What holds of every connection, whatever happened to it.
    pub open spec fn wf(self) -> bool {
        &&& self.dup_peers.finite()
        &&& self.dup_tx_count <= self.user_tx_count
        &&& self.dup_peers != Set::<IpAddr>::empty() ==> self.dup_tx_count > 0
        &&& self.changed ==> self.vote_tx_count > 0 || self.user_tx_count > 0
        &&& self.fee_tx_count == 0 ==> self.min_fee == u64::MAX && self.max_fee == 0
            && self.total_fees == 0
        &&& self.fee_tx_count > 0 ==> self.min_fee <= self.max_fee <= self.total_fees
    }

    /// After one more vote transaction.
    pub open spec fn with_vote(self) -> ConnectionView {
        ConnectionView {
            vote_tx_count: (self.vote_tx_count + 1) as u64,
            changed: true,
            ..self
        }
    }

    /// After one more user transaction, which `peer` sent here; `sender` sent it before, if anyone
    /// did.
    pub open spec fn with_user_tx(
        self,
        timestamp: u64,
        peer: SocketAddr,
        sender: Option<SocketAddr>,
    ) -> ConnectionView {
        ConnectionView {
            user_tx_timestamp: timestamp,
            user_tx_count: (self.user_tx_count + 1) as u64,
            dup_tx_count: if sender is Some {
                (self.dup_tx_count + 1) as u64
            } else {
                self.dup_tx_count
            },
            dup_peers: match sender {
                Some(other) if other != peer => self.dup_peers.insert(other.ip),
                _ => self.dup_peers,
            },
            changed: true,
            ..self
        }
    }

    /// After one of its transactions turned out unable to pay its fee.
    pub open spec fn with_badfee(self) -> ConnectionView {
        ConnectionView {
            badfee_tx_count: (self.badfee_tx_count + 1) as u64,
            changed: true,
            ..self
        }
    }

    /// After one of its transactions paid `fee`.
    pub open spec fn with_fee(self, fee: u64) -> ConnectionView {
        ConnectionView {
            fee_tx_count: (self.fee_tx_count + 1) as u64,
            min_fee: if fee < self.min_fee {
                fee
            } else {
                self.min_fee
            },
            max_fee: if fee > self.max_fee {
                fee
            } else {
                self.max_fee
            },
            total_fees: (self.total_fees + fee) as u64,
            changed: true,
            ..self
        }
    }

    /// After the validator ended it.
    pub open spec fn pruned(self, timestamp: u64) -> ConnectionView {
        ConnectionView { state: ConnectionState::Pruned, end_timestamp: timestamp, ..self }
    }

    /// After the remote peer ended it.  One that had ended already has not ended again.
    pub open spec fn closed(self, timestamp: u64) -> ConnectionView {
        if self.state is Open {
            ConnectionView { state: ConnectionState::Closed, end_timestamp: timestamp, ..self }
        } else {
            self
        }
    }

    /// After its start was reported though it was known.
    pub open spec fn with_stake(self, stake: u64) -> ConnectionView {
        if self.is_partial {
            ConnectionView { stake, ..self }
        } else {
            self
        }
    }

    /// How long it lasted, or has lasted at `timestamp`.
    pub open spec fn duration(self, timestamp: u64) -> u64 {
        if self.state is Open {
            monus(timestamp, self.start_timestamp)
        } else {
            monus(self.end_timestamp, self.start_timestamp)
        }
    }

    /// Its summary at `timestamp`.
    pub open spec fn summary(self, timestamp: u64) -> Summary {
        Summary {
            stake: self.stake,
            duration: self.duration(timestamp),
            num_dup_tx: self.dup_tx_count,
            num_vote_tx: self.vote_tx_count,
            num_user_tx: self.user_tx_count,
            num_badfee_tx: self.badfee_tx_count,
            num_fee_tx: self.fee_tx_count,
            min_fee: if self.min_fee == u64::MAX {
                0
            } else {
                self.min_fee
            },
            max_fee: self.max_fee,
            total_fees: self.total_fees,
            is_partial: self.is_partial,
        }
    }

    /// After it was summed up at `timestamp`.
    pub open spec fn summed_up(self, timestamp: u64) -> ConnectionView {
        ConnectionView { changed: false, log_timestamp: timestamp, ..self }
    }

    /// After it was logged as inactive.
    pub open spec fn marked_inactive(self) -> ConnectionView {
        ConnectionView { inactive_logged: true, ..self }
    }

    /// Has it ended without a user transaction whose fee may still become known at `now`?
    pub open spec fn finished(self, now: u64) -> bool {
        &&& !(self.state is Open)
        &&& self.user_tx_count > 0 ==> crate::clock::has_passed(
            now,
            self.user_tx_timestamp,
            FEES_WAIT,
        )
    }

    /// What a sweep at `now` does about it.
    pub open spec fn verdict(self, now: u64) -> Verdict {
        match self.state {
            ConnectionState::Open => {
                if self.changed && crate::clock::has_passed(now, self.log_timestamp, SUMMARY_WAIT) {
                    Verdict::Active
                } else if self.vote_tx_count == 0 && self.user_tx_count == 0
                    && !self.inactive_logged && crate::clock::has_passed(
                    now,
                    self.start_timestamp,
                    SUMMARY_WAIT,
                ) {
                    Verdict::Inactive
                } else {
                    Verdict::Keep
                }
            },
            ConnectionState::Pruned => if self.finished(now) {
                Verdict::End(Action::Dropped)
            } else {
                Verdict::Keep
            },
            ConnectionState::Closed => if self.finished(now) {
                Verdict::End(Action::Closed)
            } else {
                Verdict::Keep
            },
        }
    }
}

impl Connection {
    /// Is the representation sound, and the connection one that events can lead to?
    pub open spec fn wf(&self) -> bool {
        self.dup_peers.wf() && self@.wf()
    }

    /// A connection that has just been heard of, with its stake if that is known.
    pub fn new(stake: Option<u64>, start_timestamp: u64, log_timestamp: u64) -> (connection:
        Connection)
        ensures
            connection.wf(),
            connection@ == ConnectionView::heard_of(stake, start_timestamp, log_timestamp),
    {
        let connection = Connection {
            is_partial: stake.is_none(),
            stake: stake.unwrap_or(0),
            state: ConnectionState::Open,
            start_timestamp,
            end_timestamp: 0,
            user_tx_timestamp: 0,
            inactive_logged: false,
            log_timestamp,
            changed: false,
            dup_tx_count: 0,
            dup_peers: Table::new(),
            vote_tx_count: 0,
            user_tx_count: 0,
            badfee_tx_count: 0,
            fee_tx_count: 0,
            min_fee: u64::MAX,
            max_fee: 0,
            total_fees: 0,
        };
        assert(connection@ =~= ConnectionView::heard_of(stake, start_timestamp, log_timestamp));
        connection
    }

    /// One more vote transaction arrived.
    pub fn add_vote(&mut self)
        requires
            old(self).wf(),
            old(self).vote_tx_count < u64::MAX,
        ensures
            final(self).wf(),
            final(self)@ == old(self)@.with_vote(),
    {
        self.vote_tx_count = self.vote_tx_count + 1;
        self.changed = true;
    }

    /// One more user transaction arrived from `peer`; `sender` sent it before, if anyone did.
    pub fn add_user_tx(&mut self, timestamp: u64, peer: SocketAddr, sender: Option<SocketAddr>)
        requires
            old(self).wf(),
            old(self).user_tx_count < u64::MAX,
        ensures
            final(self).wf(),
            final(self)@ == old(self)@.with_user_tx(timestamp, peer, sender),
    {
        self.user_tx_timestamp = timestamp;
        self.user_tx_count = self.user_tx_count + 1;
        if let Some(other) = sender {
            self.dup_tx_count = self.dup_tx_count + 1;
            if other != peer {
                self.dup_peers.insert(other.ip, ());
            }
        }
        self.changed = true;
        assert(self@ =~= old(self)@.with_user_tx(timestamp, peer, sender));
    }

    /// One of its transactions turned out unable to pay its fee.
    pub fn add_badfee(&mut self)
        requires
            old(self).wf(),
            old(self).user_tx_count > 0,
            old(self).badfee_tx_count < u64::MAX,
        ensures
            final(self).wf(),
            final(self)@ == old(self)@.with_badfee(),
    {
        self.badfee_tx_count = self.badfee_tx_count + 1;
        self.changed = true;
    }

    /// One of its transactions paid `fee`.
    pub fn add_fee(&mut self, fee: u64)
        requires
            old(self).wf(),
            old(self).user_tx_count > 0,
            old(self).fee_tx_count < u64::MAX,
            old(self).total_fees + fee <= u64::MAX,
        ensures
            final(self).wf(),
            final(self)@ == old(self)@.with_fee(fee),
    {
        self.fee_tx_count = self.fee_tx_count + 1;
        if fee < self.min_fee {
            self.min_fee = fee;
        }
        if fee > self.max_fee {
            self.max_fee = fee;
        }
        self.total_fees = self.total_fees + fee;
        self.changed = true;
    }

    /// The validator ended the connection.
    pub fn prune(&mut self, timestamp: u64)
        requires
            old(self).wf(),
        ensures
            final(self).wf(),
            final(self)@ == old(self)@.pruned(timestamp),
    {
        self.end_timestamp = timestamp;
        self.state = ConnectionState::Pruned;
    }

    /// The remote peer ended the connection.
    pub fn close(&mut self, timestamp: u64)
        requires
            old(self).wf(),
        ensures
            final(self).wf(),
            final(self)@ == old(self)@.closed(timestamp),
    {
        match self.state {
            ConnectionState::Open => {
                self.end_timestamp = timestamp;
                self.state = ConnectionState::Closed;
            },
            _ => (),
        }
    }

    /// The start of the connection was reported though it was known.
    pub fn restake(&mut self, stake: u64)
        requires
            old(self).wf(),
        ensures
            final(self).wf(),
            final(self)@ == old(self)@.with_stake(stake),
    {
        if self.is_partial {
            self.stake = stake;
        }
    }

    /// What a sweep at `now` does about the connection.
    pub fn judge(&self, now: u64) -> (verdict: Verdict)
        requires
            self.wf(),
        ensures
            verdict == self@.verdict(now),
    {
        match self.state {
            ConnectionState::Open => {
                if self.changed {
                    if passed(now, self.log_timestamp, SUMMARY_WAIT) {
                        return Verdict::Active;
                    }
                } else if self.vote_tx_count == 0 && self.user_tx_count == 0
                    && !self.inactive_logged && passed(now, self.start_timestamp, SUMMARY_WAIT) {
                    return Verdict::Inactive;
                }
                Verdict::Keep
            },
            ConnectionState::Pruned => {
                if self.user_tx_count > 0 && !passed(now, self.user_tx_timestamp, FEES_WAIT) {
                    Verdict::Keep
                } else {
                    Verdict::End(Action::Dropped)
                }
            },
            ConnectionState::Closed => {
                if self.user_tx_count > 0 && !passed(now, self.user_tx_timestamp, FEES_WAIT) {
                    Verdict::Keep
                } else {
                    Verdict::End(Action::Closed)
                }
            },
        }
    }

    /// Sums the connection up at `timestamp`.
    pub fn sum_up(&mut self, timestamp: u64) -> (summary: Summary)
        ensures
            old(self).wf() ==> final(self).wf(),
            final(self).dup_peers == old(self).dup_peers,
            final(self)@ == old(self)@.summed_up(timestamp),
            summary == old(self)@.summary(timestamp),
    {
        let end = match self.state {
            ConnectionState::Open => timestamp,
            _ => self.end_timestamp,
        };
        let summary = Summary {
            stake: self.stake,
            duration: end.saturating_sub(self.start_timestamp),
            num_dup_tx: self.dup_tx_count,
            num_vote_tx: self.vote_tx_count,
            num_user_tx: self.user_tx_count,
            num_badfee_tx: self.badfee_tx_count,
            num_fee_tx: self.fee_tx_count,
            min_fee: if self.min_fee == u64::MAX {
                0
            } else {
                self.min_fee
            },
            max_fee: self.max_fee,
            total_fees: self.total_fees,
            is_partial: self.is_partial,
        };
        self.changed = false;
        self.log_timestamp = timestamp;
        summary
    }
}

} // verus!
