//! What holds of events and periodic work, however they follow each other.

use crate::addr::SocketAddr;
use crate::connection::{ConnectionView, SUMMARY_WAIT};
use crate::laws::{events, filters, lines, sweeps};
use crate::log::{Line, LogView};
use crate::message::TxIngestMsg;
use crate::state::{Outcome, StateView};
use vstd::prelude::*;

verus! {

/// What can happen to a state.
pub enum Step {
    /// A message is handled at `now`.
    Handled { show_tx: bool, msg: TxIngestMsg, now: u64 },
    /// The periodic work is done at `now`; `stamps` is what the clock showed.
    Swept { now: u64, stamps: Seq<u64> },
}

impl Step {
    /// Can this happen to `state`?
    pub open spec fn can_happen(self, state: StateView) -> bool {
        match self {
            Step::Handled { show_tx, msg, now } => state.has_room(msg),
            Step::Swept { now, stamps } => stamps.len() >= state.stamps_needed(now),
        }
    }

    /// What this leads to when it happens to `state`.
    pub open spec fn outcome(self, state: StateView) -> Outcome {
        match self {
            Step::Handled { show_tx, msg, now } => state.apply(show_tx, msg, now),
            Step::Swept { now, stamps } => state.periodic(now, stamps),
        }
    }
}

/// What `steps`, one after the other, lead to from `state`.
pub open spec fn run(state: StateView, steps: Seq<Step>) -> Outcome
    decreases steps.len(),
{
    if steps.len() == 0 {
        Outcome { state, lines: seq![] }
    } else {
        let before = run(state, steps.drop_last());
        let after = steps.last().outcome(before.state);
        Outcome { state: after.state, lines: before.lines + after.lines }
    }
}

/// Can `steps` happen one after the other from `state`?
pub open spec fn can_run(state: StateView, steps: Seq<Step>) -> bool
    decreases steps.len(),
{
    steps.len() > 0 ==> {
        &&& can_run(state, steps.drop_last())
        &&& steps.last().can_happen(run(state, steps.drop_last()).state)
    }
}

/// Is the connection of `peer` known from `state` on, all through `steps`?
pub open spec fn known_throughout(state: StateView, steps: Seq<Step>, peer: SocketAddr) -> bool
    decreases steps.len(),
{
    &&& run(state, steps).state.connections.contains_key(peer)
    &&& steps.len() > 0 ==> known_throughout(state, steps.drop_last(), peer)
}

/// Whatever happens to a sound state, it stays sound.
pub proof fn law_always_sound(state: StateView, steps: Seq<Step>)
    requires
        state.wf(),
        can_run(state, steps),
    ensures
        run(state, steps).state.wf(),
    decreases steps.len(),
{
    if steps.len() > 0 {
        law_always_sound(state, steps.drop_last());
        let before = run(state, steps.drop_last()).state;
        match steps.last() {
            Step::Handled { show_tx, msg, now } => events::law_events_keep_sound(
                before,
                show_tx,
                msg,
                now,
            ),
            Step::Swept { now, stamps } => sweeps::law_periodic_keeps_sound(before, now, stamps),
        }
    }
}

/// Does `line` call the connection of `peer` inactive?
pub open spec fn calls_inactive(line: LogView, peer: SocketAddr) -> bool {
    line is Inactive && sweeps::subject(line) == Some(peer)
}

/// Does `line` sum up the connection of `peer` as active?
pub open spec fn sums_up_as_active(line: LogView, peer: SocketAddr) -> bool {
    &&& sweeps::subject(line) == Some(peer)
    &&& match line {
        Line::Summed { timestamp, action, peer, summary } => action is Active,
        _ => false,
    }
}

/// The lines of `lines` that call the connection of `peer` inactive.
pub open spec fn inactive_lines(lines: Seq<LogView>, peer: SocketAddr) -> Seq<LogView> {
    lines.filter(|line: LogView| calls_inactive(line, peer))
}

/// The lines of `lines` that sum up the connection of `peer` as active.
pub open spec fn active_lines(lines: Seq<LogView>, peer: SocketAddr) -> Seq<LogView> {
    lines.filter(|line: LogView| sums_up_as_active(line, peer))
}

/// Events log nothing that the periodic work logs about a connection.
pub proof fn law_events_sum_nothing_up(
    state: StateView,
    show_tx: bool,
    msg: TxIngestMsg,
    now: u64,
    peer: SocketAddr,
)
    ensures
        sweeps::about(state.apply(show_tx, msg, now).lines, peer) == Seq::<LogView>::empty(),
{
    sweeps::lemma_about_none(state.apply(show_tx, msg, now).lines, peer);
}

/// Those of the lines about a connection that have a further property are the lines that have it
/// and are about the connection.
proof fn lemma_among_lines_about(lines: Seq<LogView>, peer: SocketAddr)
    ensures
        inactive_lines(lines, peer) == inactive_lines(sweeps::about(lines, peer), peer),
        active_lines(lines, peer) == active_lines(sweeps::about(lines, peer), peer),
{
    let weak = |line: LogView| sweeps::subject(line) == Some(peer);
    filters::lemma_filter_twice(lines, weak, |line: LogView| calls_inactive(line, peer));
    filters::lemma_filter_twice(lines, weak, |line: LogView| sums_up_as_active(line, peer));
}

/// Of no lines, none is inactive or active.
proof fn lemma_none_inactive_or_active(peer: SocketAddr)
    ensures
        inactive_lines(Seq::empty(), peer).len() == 0,
        active_lines(Seq::empty(), peer).len() == 0,
{
    reveal(Seq::filter);
}

/// Has the connection delivered a transaction?
pub open spec fn delivered(connection: ConnectionView) -> bool {
    connection.vote_tx_count > 0 || connection.user_tx_count > 0
}

/// What a sweep changes of what a connection that it keeps knows of its logging, next to what it
/// logs about it.
proof fn lemma_kept_connection_logging(
    connection: ConnectionView,
    peer: SocketAddr,
    now: u64,
    stamp: u64,
    dups_stamp: u64,
)
    requires
        connection.swept(now, stamp) is Some,
    ensures
        ({
            let after = connection.swept(now, stamp)->0;
            let lines = connection.swept_lines(peer, now, stamp, dups_stamp);
            let inactive = inactive_lines(lines, peer);
            let active = active_lines(lines, peer);
            &&& inactive.len() == if after.inactive_logged && !connection.inactive_logged {
                1nat
            } else {
                0nat
            }
            &&& connection.inactive_logged ==> after.inactive_logged
            &&& delivered(connection) ==> delivered(after) && inactive.len() == 0
            &&& active.len() <= 1
            &&& active.len() == 0 ==> after.log_timestamp == connection.log_timestamp
            &&& active.len() > 0 ==> {
                &&& after.log_timestamp == lines::timestamp_of(active.last())
                &&& now >= connection.log_timestamp + SUMMARY_WAIT
            }
        }),
{
    let lines = connection.swept_lines(peer, now, stamp, dups_stamp);
    if lines.len() > 0 {
        assert(lines =~= seq![lines[0]]);
        filters::lemma_filter_one(lines[0], |line: LogView| calls_inactive(line, peer));
        filters::lemma_filter_one(lines[0], |line: LogView| sums_up_as_active(line, peer));
    } else {
        assert(lines =~= Seq::<LogView>::empty());
        lemma_none_inactive_or_active(peer);
    }
}

/// What a sweep changes of what is known about the logging of a connection that stays known, next
/// to what it logs about it.
proof fn lemma_sweep_logging(state: StateView, now: u64, stamps: Seq<u64>, peer: SocketAddr)
    requires
        state.wf(),
        stamps.len() >= state.stamps_needed(now),
        state.connections.contains_key(peer),
        state.periodic(now, stamps).state.connections.contains_key(peer),
    ensures
        ({
            let before = state.connections[peer];
            let after = state.periodic(now, stamps).state.connections[peer];
            let inactive = inactive_lines(state.periodic(now, stamps).lines, peer);
            let active = active_lines(state.periodic(now, stamps).lines, peer);
            &&& inactive.len() == if after.inactive_logged && !before.inactive_logged {
                1nat
            } else {
                0nat
            }
            &&& before.inactive_logged ==> after.inactive_logged
            &&& delivered(before) ==> delivered(after) && inactive.len() == 0
            &&& active.len() <= 1
            &&& active.len() == 0 ==> after.log_timestamp == before.log_timestamp
            &&& active.len() > 0 ==> {
                &&& after.log_timestamp == lines::timestamp_of(active.last())
                &&& now >= before.log_timestamp + SUMMARY_WAIT
            }
        }),
{
    lemma_among_lines_about(state.periodic(now, stamps).lines, peer);
    let at = sweeps::law_lines_about_connection(state, now, stamps, peer);
    lemma_kept_connection_logging(
        state.connections[peer],
        peer,
        now,
        stamps[at],
        stamps[at + 1],
    );
}

/// What one step changes of what is known about the logging of a connection that stays known, next
/// to what it logs about it.
proof fn lemma_step_logging(state: StateView, step: Step, peer: SocketAddr)
    requires
        state.wf(),
        step.can_happen(state),
        state.connections.contains_key(peer),
        step.outcome(state).state.connections.contains_key(peer),
    ensures
        ({
            let before = state.connections[peer];
            let after = step.outcome(state).state.connections[peer];
            let inactive = inactive_lines(step.outcome(state).lines, peer);
            let active = active_lines(step.outcome(state).lines, peer);
            &&& inactive.len() == if after.inactive_logged && !before.inactive_logged {
                1nat
            } else {
                0nat
            }
            &&& before.inactive_logged ==> after.inactive_logged
            &&& delivered(before) ==> delivered(after) && inactive.len() == 0
            &&& active.len() <= 1
            &&& after.log_timestamp == if active.len() == 0 {
                before.log_timestamp
            } else {
                lines::timestamp_of(active.last())
            }
        }),
{
    match step {
        Step::Handled { show_tx, msg, now } => {
            lemma_among_lines_about(step.outcome(state).lines, peer);
            law_events_sum_nothing_up(state, show_tx, msg, now, peer);
            lemma_none_inactive_or_active(peer);
            events::law_lasting_facts(state, show_tx, msg, now, peer);
            events::law_counts_only_grow(state, show_tx, msg, now, peer);
        },
        Step::Swept { now, stamps } => lemma_sweep_logging(state, now, stamps, peer),
    }
}

/// Is the connection of `peer`, once it is known, never forgotten in the course of `steps`?
pub open spec fn never_forgotten(state: StateView, steps: Seq<Step>, peer: SocketAddr) -> bool
    decreases steps.len(),
{
    steps.len() > 0 ==> {
        &&& never_forgotten(state, steps.drop_last(), peer)
        &&& run(state, steps.drop_last()).state.connections.contains_key(peer) ==> run(
            state,
            steps,
        ).state.connections.contains_key(peer)
    }
}

/// Has the connection of `peer` been logged as inactive?
pub open spec fn called_inactive(state: StateView, peer: SocketAddr) -> bool {
    state.connections.contains_key(peer) && state.connections[peer].inactive_logged
}

/// A connection is logged as inactive at most once as long as it is not forgotten, and not at all
/// from the time on that it has delivered a transaction.  That it was logged stays on record.
pub proof fn law_inactive_at_most_once(state: StateView, steps: Seq<Step>, peer: SocketAddr)
    requires
        state.wf(),
        can_run(state, steps),
        never_forgotten(state, steps, peer),
    ensures
        inactive_lines(run(state, steps).lines, peer).len() <= 1,
        called_inactive(state, peer) ==> called_inactive(run(state, steps).state, peer),
        called_inactive(state, peer) || state.connections.contains_key(peer) && delivered(
            state.connections[peer],
        ) ==> inactive_lines(run(state, steps).lines, peer).len() == 0,
{
    lemma_inactive_counted(state, steps, peer);
}

/// What one step does about a connection that is not known.
proof fn lemma_unknown_logging(state: StateView, step: Step, peer: SocketAddr)
    requires
        state.wf(),
        step.can_happen(state),
        !state.connections.contains_key(peer),
    ensures
        inactive_lines(step.outcome(state).lines, peer).len() == 0,
        !called_inactive(step.outcome(state).state, peer),
{
    lemma_among_lines_about(step.outcome(state).lines, peer);
    lemma_none_inactive_or_active(peer);
    match step {
        Step::Handled { show_tx, msg, now } => {
            law_events_sum_nothing_up(state, show_tx, msg, now, peer);
        },
        Step::Swept { now, stamps } => {
            let _ = sweeps::law_lines_about_connection(state, now, stamps, peer);
            let _ = crate::sweep::lemma_kept_from(state.connections, now, stamps, peer);
        },
    }
}

/// The lines that call a connection inactive are counted by the record that it was.
proof fn lemma_inactive_counted(state: StateView, steps: Seq<Step>, peer: SocketAddr)
    requires
        state.wf(),
        can_run(state, steps),
        never_forgotten(state, steps, peer),
    ensures
        ({
            let outcome = run(state, steps);
            let count = inactive_lines(outcome.lines, peer).len();
            &&& called_inactive(state, peer) ==> called_inactive(outcome.state, peer)
            &&& count == if called_inactive(outcome.state, peer) && !called_inactive(state, peer) {
                1nat
            } else {
                0nat
            }
            &&& state.connections.contains_key(peer) ==> outcome.state.connections.contains_key(
                peer,
            )
            &&& state.connections.contains_key(peer) && delivered(state.connections[peer]) ==> {
                &&& delivered(outcome.state.connections[peer])
                &&& count == 0
            }
        }),
    decreases steps.len(),
{
    let p = |line: LogView| calls_inactive(line, peer);
    if steps.len() == 0 {
        reveal(Seq::filter);
    } else {
        let rest = steps.drop_last();
        lemma_inactive_counted(state, rest, peer);
        law_always_sound(state, rest);
        let before = run(state, rest);
        if before.state.connections.contains_key(peer) {
            lemma_step_logging(before.state, steps.last(), peer);
        } else {
            lemma_unknown_logging(before.state, steps.last(), peer);
        }
        Seq::filter_distributes_over_add(
            before.lines,
            steps.last().outcome(before.state).lines,
            p,
        );
    }
}

/// A connection is summed up as active no more often than every ten seconds, however long it is
/// known: the periodic work at `now` does so only if ten seconds have gone by since the latest such
/// line, or since the connection was first heard of.
pub proof fn law_active_no_more_often(
    state: StateView,
    steps: Seq<Step>,
    peer: SocketAddr,
    now: u64,
    stamps: Seq<u64>,
)
    requires
        state.wf(),
        can_run(state, steps),
        known_throughout(state, steps, peer),
        stamps.len() >= run(state, steps).state.stamps_needed(now),
        active_lines(run(state, steps).state.periodic(now, stamps).lines, peer).len() > 0,
    ensures
        ({
            let earlier = active_lines(run(state, steps).lines, peer);
            if earlier.len() > 0 {
                now >= lines::timestamp_of(earlier.last()) + SUMMARY_WAIT
            } else {
                now >= state.connections[peer].log_timestamp + SUMMARY_WAIT
            }
        }),
{
    lemma_latest_active(state, steps, peer);
    law_always_sound(state, steps);
    let after = run(state, steps).state;
    if after.periodic(now, stamps).state.connections.contains_key(peer) {
        lemma_sweep_logging(after, now, stamps, peer);
    } else {
        let _ = sweeps::law_end_is_logged(after, now, stamps, peer);
        let p = |line: LogView| sums_up_as_active(line, peer);
        let lines = after.periodic(now, stamps).lines;
        lemma_among_lines_about(lines, peer);
        let ended = sweeps::about(lines, peer);
        if ended.len() == 1 {
            assert(ended =~= seq![ended[0]]);
            filters::lemma_filter_one(ended[0], p);
        } else {
            assert(ended =~= seq![ended[0], ended[1]]);
            filters::lemma_filter_two(ended[0], ended[1], p);
        }
    }
}

proof fn lemma_latest_active(state: StateView, steps: Seq<Step>, peer: SocketAddr)
    requires
        state.wf(),
        can_run(state, steps),
        known_throughout(state, steps, peer),
    ensures
        state.connections.contains_key(peer),
        run(state, steps).state.connections.contains_key(peer),
        ({
            let active = active_lines(run(state, steps).lines, peer);
            run(state, steps).state.connections[peer].log_timestamp == if active.len() == 0 {
                state.connections[peer].log_timestamp
            } else {
                lines::timestamp_of(active.last())
            }
        }),
    decreases steps.len(),
{
    let p = |line: LogView| sums_up_as_active(line, peer);
    if steps.len() == 0 {
        reveal(Seq::filter);
    } else {
        let rest = steps.drop_last();
        lemma_latest_active(state, rest, peer);
        law_always_sound(state, rest);
        let before = run(state, rest);
        lemma_step_logging(before.state, steps.last(), peer);
        Seq::filter_distributes_over_add(
            before.lines,
            steps.last().outcome(before.state).lines,
            p,
        );
    }
}

/// What bounds the counts of a connection: it names no more hosts than it has repeated transactions,
/// and its fees add up to no less than the lowest of them, and no more than the highest, times their
/// number.
pub open spec fn in_bounds(connection: ConnectionView) -> bool {
    &&& connection.dup_peers.len() <= connection.dup_tx_count
    &&& connection.fee_tx_count > 0 ==> connection.min_fee * connection.fee_tx_count
        <= connection.total_fees <= connection.max_fee * connection.fee_tx_count
}

/// One more fee leaves the counts of a connection in bounds.
proof fn lemma_fee_in_bounds(connection: ConnectionView, fee: u64)
    requires
        connection.wf(),
        in_bounds(connection),
        connection.fee_tx_count < u64::MAX,
        connection.total_fees + fee <= u64::MAX,
    ensures
        in_bounds(connection.with_fee(fee)),
{
    let after = connection.with_fee(fee);
    let (low, high) = (after.min_fee as int, after.max_fee as int);
    let (min, max) = (connection.min_fee as int, connection.max_fee as int);
    let n = connection.fee_tx_count as int;
    let more = after.fee_tx_count as int;
    assert(low * n <= min * n && max * n <= high * n) by (nonlinear_arith)
        requires
            low <= min,
            max <= high,
            n >= 0,
    ;
    assert(low * more == low * n + low && high * more == high * n + high) by (nonlinear_arith)
        requires
            more == n + 1,
    ;
    assert(n == 0 ==> low * n == 0 && high * n == 0);
}

/// One step leaves the counts of every connection in bounds.
proof fn lemma_step_in_bounds(state: StateView, step: Step, peer: SocketAddr)
    requires
        state.wf(),
        step.can_happen(state),
        state.connections.contains_key(peer) ==> in_bounds(state.connections[peer]),
        step.outcome(state).state.connections.contains_key(peer),
    ensures
        in_bounds(step.outcome(state).state.connections[peer]),
{
    match step {
        Step::Handled { show_tx, msg, now } => {
            if !events::concerns(state, msg, peer) {
                events::law_other_connections_untouched(state, show_tx, msg, now, peer);
            } else {
                match msg {
                    TxIngestMsg::Fee { timestamp, signature, fee } => {
                        lemma_fee_in_bounds(state.connections[peer], fee);
                    },
                    _ => {},
                }
            }
        },
        Step::Swept { now, stamps } => {
            let _ = crate::sweep::lemma_kept_from(state.connections, now, stamps, peer);
        },
    }
}

/// Whatever happens from the start on, the counts of every connection are in bounds.
pub proof fn law_counts_in_bounds(steps: Seq<Step>, peer: SocketAddr)
    requires
        can_run(StateView::initial(), steps),
        run(StateView::initial(), steps).state.connections.contains_key(peer),
    ensures
        in_bounds(run(StateView::initial(), steps).state.connections[peer]),
    decreases steps.len(),
{
    if steps.len() > 0 {
        let rest = steps.drop_last();
        let before = run(StateView::initial(), rest).state;
        law_always_sound(StateView::initial(), rest);
        if before.connections.contains_key(peer) {
            law_counts_in_bounds(rest, peer);
        }
        lemma_step_in_bounds(before, steps.last(), peer);
    }
}

} // verus!
