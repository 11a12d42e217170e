//! The receiver: hands each event to the state, and sees to the periodic work in between.

use crate::addr::SocketAddr;
use crate::clock::{now_millis, passed};
use crate::log::{LogLine, LogView};
use crate::message::TxIngestMsg;
use crate::state::{Fault, Outcome, State, StateView};
use vstd::prelude::*;

verus! {

/// How long the receiver waits before it does the periodic work again.
pub const PERIOD: u64 = 10000;

impl StateView {
    /// Can the counters take in `msg`?
    pub open spec fn has_room(self, msg: TxIngestMsg) -> bool {
        match msg {
            TxIngestMsg::Failed { timestamp, peer_addr } => self.room_for_failure(peer_addr.ip),
            TxIngestMsg::Exceeded { timestamp, peer_addr, stake } => self.room_for_exceed(
                peer_addr.ip,
            ),
            TxIngestMsg::VoteTx { timestamp, peer_addr, peer_port } => self.room_for_vote(
                SocketAddr { ip: peer_addr, port: peer_port },
            ),
            TxIngestMsg::UserTx { timestamp, peer_addr, peer_port, signature } =>
                self.room_for_user_tx(SocketAddr { ip: peer_addr, port: peer_port }),
            TxIngestMsg::BadFee { timestamp, signature } => self.room_for_badfee(signature),
            TxIngestMsg::Fee { timestamp, signature, fee } => self.room_for_fee(signature, fee),
            _ => true,
        }
    }

    /// Does it matter to `msg` what time it is?
    pub open spec fn needs_time(self, msg: TxIngestMsg) -> bool {
        match msg {
            TxIngestMsg::Failed { timestamp, peer_addr } => true,
            TxIngestMsg::Exceeded { timestamp, peer_addr, stake } => true,
            TxIngestMsg::Stake { timestamp, peer_addr, stake } => !self.connections.contains_key(
                peer_addr,
            ),
            TxIngestMsg::VoteTx { timestamp, peer_addr, peer_port } =>
                !self.connections.contains_key(SocketAddr { ip: peer_addr, port: peer_port }),
            TxIngestMsg::UserTx { timestamp, peer_addr, peer_port, signature } =>
                !self.connections.contains_key(SocketAddr { ip: peer_addr, port: peer_port }),
            _ => false,
        }
    }

    /// What `msg` leads to when it is handled at `now`.
    pub open spec fn apply(self, show_tx: bool, msg: TxIngestMsg, now: u64) -> Outcome {
        match msg {
            TxIngestMsg::Failed { timestamp, peer_addr } => self.failed(peer_addr.ip, now),
            TxIngestMsg::Exceeded { timestamp, peer_addr, stake } => self.exceeded(
                peer_addr.ip,
                stake,
                now,
            ),
            TxIngestMsg::Stake { timestamp, peer_addr, stake } => self.stake(
                timestamp,
                peer_addr,
                stake,
                now,
            ),
            TxIngestMsg::Pruned { timestamp, peer_addr } => Outcome {
                state: self.pruned(timestamp, peer_addr),
                lines: seq![],
            },
            TxIngestMsg::Closed { timestamp, peer_addr } => Outcome {
                state: self.closed(timestamp, peer_addr),
                lines: seq![],
            },
            TxIngestMsg::VoteTx { timestamp, peer_addr, peer_port } => Outcome {
                state: self.votetx(SocketAddr { ip: peer_addr, port: peer_port }, now),
                lines: seq![],
            },
            TxIngestMsg::UserTx { timestamp, peer_addr, peer_port, signature } => self.usertx(
                show_tx,
                timestamp,
                SocketAddr { ip: peer_addr, port: peer_port },
                signature,
                now,
            ),
            TxIngestMsg::Forwarded { timestamp, signature } => Outcome {
                state: self,
                lines: seq![],
            },
            TxIngestMsg::BadFee { timestamp, signature } => Outcome {
                state: self.badfee(signature),
                lines: seq![],
            },
            TxIngestMsg::Fee { timestamp, signature, fee } => self.fee(
                show_tx,
                timestamp,
                signature,
                fee,
            ),
            TxIngestMsg::WillBeLeader { timestamp, slots } => self.will_be_leader(timestamp, slots),
            TxIngestMsg::BeginLeader { timestamp } => self.begin_leader(timestamp),
            TxIngestMsg::EndLeader { timestamp } => self.end_leader(timestamp),
        }
    }

    /// What `msg` has logged by the time that the clock is read for it.
    pub open spec fn logged_first(self, show_tx: bool, msg: TxIngestMsg) -> Seq<LogView> {
        match msg {
            TxIngestMsg::Failed { timestamp, peer_addr } => seq![],
            TxIngestMsg::Exceeded { timestamp, peer_addr, stake } => seq![],
            _ => self.apply(show_tx, msg, 0).lines,
        }
    }
}

impl State {
    /// Can the counters take in `msg`?
    pub fn has_room(&self, msg: &TxIngestMsg) -> (room: bool)
        requires
            self.wf(),
        ensures
            room == self@.has_room(*msg),
    {
        match *msg {
            TxIngestMsg::Failed { timestamp: _, peer_addr } => match self.failures.get(
                &peer_addr.ip,
            ) {
                Some(failures) => failures.count < u64::MAX,
                None => true,
            },
            TxIngestMsg::Exceeded { timestamp: _, peer_addr, stake: _ } => match self.exceeds.get(
                &peer_addr.ip,
            ) {
                Some(exceeds) => exceeds.count < u64::MAX,
                None => true,
            },
            TxIngestMsg::VoteTx { timestamp: _, peer_addr, peer_port } => {
                match self.connections.get(&SocketAddr::new(peer_addr, peer_port)) {
                    Some(connection) => connection.vote_tx_count < u64::MAX,
                    None => true,
                }
            },
            TxIngestMsg::UserTx { timestamp: _, peer_addr, peer_port, signature: _ } => {
                match self.connections.get(&SocketAddr::new(peer_addr, peer_port)) {
                    Some(connection) => connection.user_tx_count < u64::MAX,
                    None => true,
                }
            },
            TxIngestMsg::BadFee { timestamp: _, signature } => match self.txs.get(&signature) {
                Some(sender) => match self.connections.get(sender) {
                    Some(connection) => connection.badfee_tx_count < u64::MAX,
                    None => true,
                },
                None => true,
            },
            TxIngestMsg::Fee { timestamp: _, signature, fee } => match self.txs.get(&signature) {
                Some(sender) => match self.connections.get(sender) {
                    Some(connection) => connection.fee_tx_count < u64::MAX && fee <= u64::MAX
                        - connection.total_fees,
                    None => true,
                },
                None => true,
            },
            _ => true,
        }
    }

    /// Handles `msg` at `now`.
    pub fn apply_at(&mut self, now: u64, show_tx: bool, msg: TxIngestMsg, log: &mut Vec<LogLine>)
        requires
            old(self).wf(),
            old(self)@.has_room(msg),
        ensures
            final(self).wf(),
            final(self)@ == old(self)@.apply(show_tx, msg, now).state,
            crate::log::shown(final(log)@) == crate::log::shown(old(log)@) + old(self)@.apply(
                show_tx,
                msg,
                now,
            ).lines,
    {
        assert(crate::log::shown(log@) + Seq::<LogView>::empty() =~= crate::log::shown(log@));
        match msg {
            TxIngestMsg::Failed { timestamp: _, peer_addr } => self.failed_at(now, peer_addr, log),
            TxIngestMsg::Exceeded { timestamp: _, peer_addr, stake } => self.exceeded_at(
                now,
                peer_addr,
                stake,
                log,
            ),
            TxIngestMsg::Stake { timestamp, peer_addr, stake } => self.stake_at(
                now,
                timestamp,
                peer_addr,
                stake,
                log,
            ),
            TxIngestMsg::Pruned { timestamp, peer_addr } => self.pruned(timestamp, peer_addr),
            TxIngestMsg::Closed { timestamp, peer_addr } => self.closed(timestamp, peer_addr),
            TxIngestMsg::VoteTx { timestamp: _, peer_addr, peer_port } => self.votetx_at(
                now,
                peer_addr,
                peer_port,
            ),
            TxIngestMsg::UserTx { timestamp, peer_addr, peer_port, signature } => self.usertx_at(
                now,
                show_tx,
                timestamp,
                peer_addr,
                peer_port,
                signature,
                log,
            ),
            TxIngestMsg::Forwarded { timestamp, signature } => self.forwarded(timestamp, signature),
            TxIngestMsg::BadFee { timestamp, signature } => self.badfee(timestamp, signature),
            TxIngestMsg::Fee { timestamp, signature, fee } => self.fee(
                show_tx,
                timestamp,
                signature,
                fee,
                log,
            ),
            TxIngestMsg::WillBeLeader { timestamp, slots } => self.will_be_leader(
                timestamp,
                slots,
                log,
            ),
            TxIngestMsg::BeginLeader { timestamp } => self.begin_leader(timestamp, log),
            TxIngestMsg::EndLeader { timestamp } => self.end_leader(timestamp, log),
        }
    }

    /// Handles `msg`, reading the clock where it matters.
    pub fn apply(&mut self, show_tx: bool, msg: TxIngestMsg, log: &mut Vec<LogLine>) -> (done: Result<
        (),
        Fault,
    >)
        requires
            old(self).wf(),
            old(self)@.has_room(msg),
        ensures
            final(self).wf(),
            !old(self)@.needs_time(msg) ==> done is Ok,
            match done {
                Ok(()) => exists|now: u64|
                    {
                        &&& !old(self)@.needs_time(msg) || crate::clock::clock_showed(Some(now))
                        &&& final(self)@ == (#[trigger] old(self)@.apply(show_tx, msg, now)).state
                        &&& crate::log::shown(final(log)@) == crate::log::shown(old(log)@)
                            + old(self)@.apply(show_tx, msg, now).lines
                    },
                Err(fault) => {
                    &&& fault == Fault::Clock
                    &&& crate::clock::clock_showed(None)
                    &&& final(self)@ == old(self)@
                    &&& crate::log::shown(final(log)@) == crate::log::shown(old(log)@)
                        + old(self)@.logged_first(show_tx, msg)
                },
            },
    {
        let ghost before = self@;
        let ghost logged = crate::log::shown(log@);
        assert(logged + Seq::<LogView>::empty() =~= logged);
        match msg {
            TxIngestMsg::Failed { timestamp, peer_addr } => {
                let done = self.failed(timestamp, peer_addr, log);
                assert(forall|now: u64| #[trigger]
                    before.failed(peer_addr.ip, now) == before.apply(show_tx, msg, now));
                done
            },
            TxIngestMsg::Exceeded { timestamp, peer_addr, stake } => {
                let done = self.exceeded(timestamp, peer_addr, stake, log);
                assert(forall|now: u64| #[trigger]
                    before.exceeded(peer_addr.ip, stake, now) == before.apply(show_tx, msg, now));
                done
            },
            TxIngestMsg::Stake { timestamp, peer_addr, stake } => {
                let done = self.stake(timestamp, peer_addr, stake, log);
                assert(forall|now: u64| #[trigger]
                    before.stake(timestamp, peer_addr, stake, now) == before.apply(
                        show_tx,
                        msg,
                        now,
                    ));
                assert(crate::log::shown(log@) =~= logged + before.logged_first(show_tx, msg));
                done
            },
            TxIngestMsg::VoteTx { timestamp, peer_addr, peer_port } => {
                let done = self.votetx(timestamp, peer_addr, peer_port);
                assert(forall|now: u64|
                    (#[trigger] before.votetx(
                        SocketAddr { ip: peer_addr, port: peer_port },
                        now,
                    )) == before.apply(show_tx, msg, now).state);
                done
            },
            TxIngestMsg::UserTx { timestamp, peer_addr, peer_port, signature } => {
                let done = self.usertx(
                    show_tx,
                    timestamp,
                    peer_addr,
                    peer_port,
                    signature,
                    log,
                );
                assert(forall|now: u64| #[trigger]
                    before.usertx(
                        show_tx,
                        timestamp,
                        SocketAddr { ip: peer_addr, port: peer_port },
                        signature,
                        now,
                    ) == before.apply(show_tx, msg, now));
                assert(crate::log::shown(log@) =~= logged + before.logged_first(show_tx, msg));
                done
            },
            _ => {
                self.apply_at(0, show_tx, msg, log);
                Ok(())
            },
        }
    }
}

/// What came in from the peers while the receiver was waiting.
#[derive(Clone, Copy, PartialEq, Eq, Debug)]
pub enum Event {
    /// Nothing can come in any more.
    Disconnected,
    /// Nothing came in for a while.
    Timeout,
    /// A message.
    Message(TxIngestMsg),
}

/// The receiver.
pub struct Receiver {
    pub state: State,
    /// Is each transaction logged?
    pub show_tx: bool,
    /// When the periodic work was last done; 0 before it was done first.
    pub last_log_timestamp: u64,
}

/// What contracts see of the receiver.
#[verifier::ext_equal]
pub struct ReceiverView {
    pub state: StateView,
    pub show_tx: bool,
    pub last_log_timestamp: u64,
}

impl View for Receiver {
    type V = ReceiverView;

    open spec fn view(&self) -> ReceiverView {
        ReceiverView {
            state: self.state@,
            show_tx: self.show_tx,
            last_log_timestamp: self.last_log_timestamp,
        }
    }
}

impl ReceiverView {
    /// Is the periodic work due at `now`?
    pub open spec fn due(self, now: u64) -> bool {
        crate::clock::has_passed(now, self.last_log_timestamp, PERIOD)
    }

    /// How many readings of the clock a turn at `now` needs.
    pub open spec fn stamps_needed(self, now: u64) -> nat {
        if self.due(now) {
            self.state.stamps_needed(now)
        } else {
            0
        }
    }

    /// The receiver after a turn at `now`; `stamps` is what the clock showed during it.
    pub open spec fn ticked(self, now: u64, stamps: Seq<u64>) -> ReceiverView {
        if self.due(now) {
            ReceiverView {
                state: self.state.periodic(now, stamps).state,
                last_log_timestamp: now,
                ..self
            }
        } else {
            self
        }
    }

    /// What a turn at `now` logs; `stamps` is what the clock showed during it.
    pub open spec fn ticked_lines(self, now: u64, stamps: Seq<u64>) -> Seq<LogView> {
        if self.due(now) {
            self.state.periodic(now, stamps).lines
        } else {
            seq![]
        }
    }
}

impl Receiver {
    /// Is the state sound?
    pub open spec fn wf(&self) -> bool {
        self.state.wf()
    }

    /// A receiver to which nothing has happened yet.
    pub fn new(show_tx: bool) -> (receiver: Receiver)
        ensures
            receiver.wf(),
            receiver@ == (ReceiverView {
                state: StateView::initial(),
                show_tx,
                last_log_timestamp: 0,
            }),
    {
        Receiver { state: State::new(), show_tx, last_log_timestamp: 0 }
    }

    /// Takes in what came; returns whether more can come.
    pub fn on_event(&mut self, event: Event, log: &mut Vec<LogLine>) -> (more: Result<bool, Fault>)
        requires
            old(self).wf(),
        ensures
            final(self).wf(),
            more == Ok::<bool, Fault>(false) <==> event is Disconnected,
            !(event is Message) ==> {
                &&& more is Ok
                &&& final(self)@ == old(self)@
                &&& final(log)@ == old(log)@
            },
            event matches Event::Message(msg) ==> {
                &&& final(self)@ == (ReceiverView { state: final(self)@.state, ..old(self)@ })
                &&& more == Err::<bool, Fault>(Fault::Overflow) <==> !old(self)@.state.has_room(msg)
                &&& old(self)@.state.has_room(msg) && !old(self)@.state.needs_time(msg)
                    ==> more is Ok
                &&& match more {
                    Ok(_) => exists|now: u64|
                        {
                            let outcome = #[trigger] old(self)@.state.apply(
                                old(self)@.show_tx,
                                msg,
                                now,
                            );
                            &&& !old(self)@.state.needs_time(msg)
                                || crate::clock::clock_showed(Some(now))
                            &&& final(self)@.state == outcome.state
                            &&& crate::log::shown(final(log)@) == crate::log::shown(old(log)@)
                                + outcome.lines
                        },
                    Err(Fault::Overflow) => final(self)@ == old(self)@ && final(log)@ == old(log)@,
                    Err(Fault::Clock) => {
                        &&& crate::clock::clock_showed(None)
                        &&& final(self)@ == old(self)@
                        &&& crate::log::shown(final(log)@) == crate::log::shown(old(log)@)
                            + old(self)@.state.logged_first(old(self)@.show_tx, msg)
                    },
                }
            },
    {
        match event {
            Event::Disconnected => Ok(false),
            Event::Timeout => Ok(true),
            Event::Message(msg) => {
                if !self.state.has_room(&msg) {
                    return Err(Fault::Overflow);
                }
                match self.state.apply(self.show_tx, msg, log) {
                    Ok(()) => Ok(true),
                    Err(fault) => Err(fault),
                }
            },
        }
    }

    /// Does the periodic work at `now` if it is due; `stamps` is what the clock showed, one reading
    /// for each line that needs one.
    pub fn tick_at(&mut self, now: u64, stamps: &Vec<u64>, log: &mut Vec<LogLine>)
        requires
            old(self).wf(),
            stamps@.len() >= old(self)@.stamps_needed(now),
        ensures
            final(self).wf(),
            final(self)@ == old(self)@.ticked(now, stamps@),
            crate::log::shown(final(log)@) == crate::log::shown(old(log)@) + old(
                self,
            )@.ticked_lines(now, stamps@),
    {
        if passed(now, self.last_log_timestamp, PERIOD) {
            self.state.periodic_at(now, stamps, log);
            self.last_log_timestamp = now;
        } else {
            assert(crate::log::shown(log@) + Seq::<LogView>::empty() =~= crate::log::shown(log@));
        }
    }

    /// Does the periodic work if it is due: reads the clock, and hands the readings to `tick_at`.
    /// Nothing is done when the clock stands before the Unix epoch.
    pub fn tick(&mut self, log: &mut Vec<LogLine>) -> (done: Result<(), Fault>)
        requires
            old(self).wf(),
        ensures
            final(self).wf(),
            match done {
                Ok(()) => exists|now: u64, stamps: Seq<u64>|
                    {
                        &&& crate::clock::clock_showed(Some(now))
                        &&& stamps.len() == old(self)@.stamps_needed(now)
                        &&& crate::clock::all_showed(stamps)
                        &&& final(self)@ == #[trigger] old(self)@.ticked(now, stamps)
                        &&& crate::log::shown(final(log)@) == crate::log::shown(old(log)@) + old(
                            self,
                        )@.ticked_lines(now, stamps)
                    },
                Err(fault) => {
                    &&& fault == Fault::Clock
                    &&& crate::clock::clock_showed(None)
                    &&& final(self)@ == old(self)@
                    &&& final(log)@ == old(log)@
                },
            },
    {
        let ghost before = self@;
        match now_millis() {
            Some(now) => {
                let stamps: Vec<u64> = if passed(now, self.last_log_timestamp, PERIOD) {
                    match self.state.read_stamps(now) {
                        Some(stamps) => stamps,
                        None => {
                            return Err(Fault::Clock);
                        },
                    }
                } else {
                    Vec::new()
                };
                self.tick_at(now, &stamps, log);
                assert(self@ == before.ticked(now, stamps@));
                Ok(())
            },
            None => Err(Fault::Clock),
        }
    }
}

} // verus!
