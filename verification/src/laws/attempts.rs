//! What holds of the attempts to connect that are counted and reported.

use crate::addr::{IpAddr, SocketAddr};
use crate::connection::{ConnectionView, Tally, TALLY_LIMIT};
use crate::laws::filters;
use crate::laws::runs;
use crate::laws::runs::Step;
use crate::log::{Line, LogView};
use crate::message::TxIngestMsg;
use crate::state::StateView;
use crate::{connection, sweep, table};
use vstd::prelude::*;

verus! {

/// The sum of what `weight` makes of each of `lines`.
pub open spec fn weigh(lines: Seq<LogView>, weight: spec_fn(LogView) -> nat) -> nat
    decreases lines.len(),
{
    if lines.len() == 0 {
        0
    } else {
        weigh(lines.drop_last(), weight) + weight(lines.last())
    }
}

/// How many failed attempts of `ip` a line reports.
pub open spec fn failures_in(ip: IpAddr) -> spec_fn(LogView) -> nat {
    |line: LogView|
        match line {
            Line::Failed { timestamp, host, count } => if host == ip {
                count as nat
            } else {
                0
            },
            _ => 0,
        }
}

/// How many attempts of `ip` beyond the limits a line reports.
pub open spec fn exceeds_in(ip: IpAddr) -> spec_fn(LogView) -> nat {
    |line: LogView|
        match line {
            Line::Exceeded { timestamp, host, stake, count } => if host == ip {
                count as nat
            } else {
                0
            },
            _ => 0,
        }
}

/// The weights of two parts add up.
proof fn lemma_weigh_add(a: Seq<LogView>, b: Seq<LogView>, weight: spec_fn(LogView) -> nat)
    ensures
        weigh(a + b, weight) == weigh(a, weight) + weigh(b, weight),
    decreases b.len(),
{
    if b.len() == 0 {
        assert(a + b =~= a);
    } else {
        assert((a + b).drop_last() =~= a + b.drop_last());
        lemma_weigh_add(a, b.drop_last(), weight);
    }
}

/// Lines that weigh nothing each weigh nothing together.
proof fn lemma_weigh_nothing(lines: Seq<LogView>, weight: spec_fn(LogView) -> nat)
    requires
        forall|i: int| 0 <= i < lines.len() ==> weight(#[trigger] lines[i]) == 0,
    ensures
        weigh(lines, weight) == 0,
    decreases lines.len(),
{
    if lines.len() > 0 {
        let rest = lines.drop_last();
        assert forall|i: int| 0 <= i < rest.len() implies weight(#[trigger] rest[i]) == 0 by {
            assert(rest[i] == lines[i]);
        }
        lemma_weigh_nothing(rest, weight);
        assert(lines[lines.len() - 1] == lines.last());
    }
}

/// The weight of one line.
proof fn lemma_weigh_one(line: LogView, weight: spec_fn(LogView) -> nat)
    ensures
        weigh(seq![line], weight) == weight(line),
{
    assert(seq![line].drop_last() =~= Seq::<LogView>::empty());
    assert(weigh(seq![line].drop_last(), weight) == 0);
}

/// What a sweep logs about connections is not about attempts to connect.
proof fn lemma_connections_report_no_attempts(
    connections: Map<SocketAddr, ConnectionView>,
    peers: Seq<SocketAddr>,
    now: u64,
    stamps: Seq<u64>,
)
    ensures
        ({
            let lines = sweep::connections_logged(connections, peers, now, stamps);
            forall|i: int|
                0 <= i < lines.len() ==> !(#[trigger] lines[i] is Failed) && !(lines[i]
                    is Exceeded)
        }),
    decreases peers.len(),
{
    if peers.len() > 0 {
        lemma_connections_report_no_attempts(connections, peers.drop_last(), now, stamps);
    }
}

/// What a sweep logs about the attempts of `ip`; `weight` is how many of them a line reports.
proof fn lemma_tallies_swept<T: Tally>(
    tallies: Map<IpAddr, T>,
    ips: Seq<IpAddr>,
    now: u64,
    ip: IpAddr,
    weight: spec_fn(LogView) -> nat,
    n: int,
)
    requires
        table::lists(ips, tallies.dom()),
        0 <= n <= ips.len(),
        forall|tally: T, host: IpAddr|
            weight(#[trigger] tally.line(now, host)) == if host == ip {
                tally.waiting() as nat
            } else {
                0
            },
    ensures
        weigh(sweep::tallies_logged(tallies, ips.take(n), now), weight) == if ips.take(n).contains(
            ip,
        ) && connection::expired(tallies[ip], now) {
            tallies[ip].waiting() as nat
        } else {
            0
        },
    decreases n,
{
    let due = sweep::left_over(tallies, now);
    let line = sweep::tally_line(tallies, now);
    if n == 0 {
        assert(ips.take(0) =~= Seq::<IpAddr>::empty());
        reveal(Seq::filter);
        assert(sweep::tallies_logged(tallies, ips.take(0), now) =~= Seq::<LogView>::empty());
    } else {
        lemma_tallies_swept(tallies, ips, now, ip, weight, n - 1);
        sweep::lemma_filter_map_step(ips, n - 1, due, line);
        sweep::lemma_take_one_more(ips, n - 1);
        sweep::lemma_listed_once(ips, tallies.dom(), n - 1);
        let before = sweep::tallies_logged(tallies, ips.take(n - 1), now);
        if due(ips[n - 1]) {
            assert(before.push(line(ips[n - 1])).drop_last() =~= before);
        }
    }
}

/// How many attempts of `ip` fail in `step`.
pub open spec fn fails(step: Step, ip: IpAddr) -> nat {
    match step {
        Step::Handled { show_tx, msg: TxIngestMsg::Failed { timestamp, peer_addr }, now } => {
            if peer_addr.ip == ip {
                1
            } else {
                0
            }
        },
        _ => 0,
    }
}

/// How many attempts of `ip` exceed the limits in `step`.
pub open spec fn exceeds_limits(step: Step, ip: IpAddr) -> nat {
    match step {
        Step::Handled {
            show_tx,
            msg: TxIngestMsg::Exceeded { timestamp, peer_addr, stake },
            now,
        } => {
            if peer_addr.ip == ip {
                1
            } else {
                0
            }
        },
        _ => 0,
    }
}

/// How many attempts of `ip` fail in the course of `steps`.
pub open spec fn failed_attempts(steps: Seq<Step>, ip: IpAddr) -> nat
    decreases steps.len(),
{
    if steps.len() == 0 {
        0
    } else {
        failed_attempts(steps.drop_last(), ip) + fails(steps.last(), ip)
    }
}

/// How many attempts of `ip` exceed the limits in the course of `steps`.
pub open spec fn exceeding_attempts(steps: Seq<Step>, ip: IpAddr) -> nat
    decreases steps.len(),
{
    if steps.len() == 0 {
        0
    } else {
        exceeding_attempts(steps.drop_last(), ip) + exceeds_limits(steps.last(), ip)
    }
}

/// What an event reports about attempts to connect.
proof fn lemma_attempts_handled(
    state: StateView,
    show_tx: bool,
    msg: TxIngestMsg,
    now: u64,
    ip: IpAddr,
)
    requires
        state.has_room(msg),
    ensures
        ({
            let outcome = state.apply(show_tx, msg, now);
            let step = Step::Handled { show_tx, msg, now };
            &&& weigh(outcome.lines, failures_in(ip)) + outcome.state.failures_of(ip).count
                == state.failures_of(ip).count + fails(step, ip)
            &&& weigh(outcome.lines, exceeds_in(ip)) + outcome.state.exceeds_of(ip).count
                == state.exceeds_of(ip).count + exceeds_limits(step, ip)
        }),
{
    let lines = state.apply(show_tx, msg, now).lines;
    if lines.len() > 0 {
        assert(lines =~= seq![lines[0]]);
        lemma_weigh_one(lines[0], failures_in(ip));
        lemma_weigh_one(lines[0], exceeds_in(ip));
    }
}

/// What the periodic work reports about attempts to connect.
proof fn lemma_attempts_swept(state: StateView, now: u64, stamps: Seq<u64>, ip: IpAddr)
    requires
        state.wf(),
    ensures
        ({
            let outcome = state.periodic(now, stamps);
            &&& weigh(outcome.lines, failures_in(ip)) + outcome.state.failures_of(ip).count
                == state.failures_of(ip).count
            &&& weigh(outcome.lines, exceeds_in(ip)) + outcome.state.exceeds_of(ip).count
                == state.exceeds_of(ip).count
        }),
{
    let peers = table::in_order(state.connections.dom());
    let failing = table::in_order(state.failures.dom());
    let exceeding = table::in_order(state.exceeds.dom());
    table::lemma_in_order(state.failures.dom());
    table::lemma_in_order(state.exceeds.dom());
    let failures = sweep::tallies_logged(state.failures, failing, now);
    let exceeds = sweep::tallies_logged(state.exceeds, exceeding, now);
    let logged = sweep::connections_logged(state.connections, peers, now, stamps);
    lemma_connections_report_no_attempts(state.connections, peers, now, stamps);
    lemma_weigh_nothing(logged, failures_in(ip));
    lemma_weigh_nothing(logged, exceeds_in(ip));
    lemma_weigh_add(failures + exceeds, logged, failures_in(ip));
    lemma_weigh_add(failures, exceeds, failures_in(ip));
    lemma_weigh_add(failures + exceeds, logged, exceeds_in(ip));
    lemma_weigh_add(failures, exceeds, exceeds_in(ip));
    lemma_weigh_nothing(failures, exceeds_in(ip));
    lemma_weigh_nothing(exceeds, failures_in(ip));
    lemma_tallies_swept(
        state.failures,
        failing,
        now,
        ip,
        failures_in(ip),
        failing.len() as int,
    );
    lemma_tallies_swept(
        state.exceeds,
        exceeding,
        now,
        ip,
        exceeds_in(ip),
        exceeding.len() as int,
    );
    assert(failing.take(failing.len() as int) =~= failing);
    assert(exceeding.take(exceeding.len() as int) =~= exceeding);
    assert(state.failures.dom().contains(ip) == state.failures.contains_key(ip));
    assert(state.exceeds.dom().contains(ip) == state.exceeds.contains_key(ip));
}

/// No attempt to connect goes unreported and none is reported twice, however events and periodic
/// work follow each other: those that the log reports for a host and those that wait to be reported
/// are together those that there were.
pub proof fn law_every_attempt_reported(state: StateView, steps: Seq<Step>, ip: IpAddr)
    requires
        state.wf(),
        runs::can_run(state, steps),
    ensures
        ({
            let outcome = runs::run(state, steps);
            &&& weigh(outcome.lines, failures_in(ip)) + outcome.state.failures_of(ip).count
                == state.failures_of(ip).count + failed_attempts(steps, ip)
            &&& weigh(outcome.lines, exceeds_in(ip)) + outcome.state.exceeds_of(ip).count
                == state.exceeds_of(ip).count + exceeding_attempts(steps, ip)
        }),
    decreases steps.len(),
{
    if steps.len() > 0 {
        let rest = steps.drop_last();
        law_every_attempt_reported(state, rest, ip);
        runs::law_always_sound(state, rest);
        let before = runs::run(state, rest);
        let lines = steps.last().outcome(before.state).lines;
        lemma_weigh_add(before.lines, lines, failures_in(ip));
        lemma_weigh_add(before.lines, lines, exceeds_in(ip));
        match steps.last() {
            Step::Handled { show_tx, msg, now } => lemma_attempts_handled(
                before.state,
                show_tx,
                msg,
                now,
                ip,
            ),
            Step::Swept { now, stamps } => lemma_attempts_swept(before.state, now, stamps, ip),
        }
    }
}

/// Is the count such as attempts at times after the epoch lead to?  It says so when attempts wait,
/// there are fewer of them than are logged without waiting, and it has been begun.
pub open spec fn in_time<T: Tally>(tally: T) -> bool {
    &&& tally.pending() <==> tally.waiting() > 0
    &&& tally.waiting() < TALLY_LIMIT
    &&& tally.logged_at() > 0
}

/// Is the count of every host such?
pub open spec fn all_in_time<T: Tally>(tallies: Map<IpAddr, T>) -> bool {
    forall|ip: IpAddr| #[trigger] tallies.contains_key(ip) ==> in_time(tallies[ip])
}

/// Does the clock stand after the epoch whenever an event is handled in the course of `steps`?
pub open spec fn clock_runs(steps: Seq<Step>) -> bool {
    forall|i: int|
        0 <= i < steps.len() ==> match #[trigger] steps[i] {
            Step::Handled { show_tx, msg, now } => now > 0,
            Step::Swept { now, stamps } => true,
        }
}

/// Whatever happens from the start on, fewer attempts of each host wait than are logged without
/// waiting, and each count says whether any do.
pub proof fn law_counts_in_time(steps: Seq<Step>)
    requires
        clock_runs(steps),
    ensures
        all_in_time(runs::run(StateView::initial(), steps).state.failures),
        all_in_time(runs::run(StateView::initial(), steps).state.exceeds),
    decreases steps.len(),
{
    if steps.len() > 0 {
        let rest = steps.drop_last();
        assert forall|i: int| 0 <= i < rest.len() implies match #[trigger] rest[i] {
            Step::Handled { show_tx, msg, now } => now > 0,
            Step::Swept { now, stamps } => true,
        } by {
            assert(rest[i] == steps[i]);
        }
        law_counts_in_time(rest);
        assert(steps.last() == steps[steps.len() - 1]);
        let before = runs::run(StateView::initial(), rest).state;
        match steps.last() {
            Step::Handled { show_tx, msg: TxIngestMsg::Failed { timestamp, peer_addr }, now } => {
                assert(in_time(before.failures_of(peer_addr.ip).after(now)));
            },
            Step::Handled {
                show_tx,
                msg: TxIngestMsg::Exceeded { timestamp, peer_addr, stake },
                now,
            } => {
                assert(in_time(before.exceeds_of(peer_addr.ip).after(now, stake)));
            },
            _ => {},
        }
    }
}

/// What can happen to two states alike: to one by attempts beyond the limits, to the other by
/// attempts that fail.
pub enum Twin {
    /// An attempt of a host with `stake` at `now`.
    Attempt { timestamp: u64, peer_addr: SocketAddr, stake: u64, now: u64 },
    /// The periodic work at `now`; `stamps` and `other_stamps` are what the clock showed.
    Swept { now: u64, stamps: Seq<u64>, other_stamps: Seq<u64> },
}

impl Twin {
    /// What happens to the one state.
    pub open spec fn exceeding(self) -> Step {
        match self {
            Twin::Attempt { timestamp, peer_addr, stake, now } => Step::Handled {
                show_tx: false,
                msg: TxIngestMsg::Exceeded { timestamp, peer_addr, stake },
                now,
            },
            Twin::Swept { now, stamps, other_stamps } => Step::Swept { now, stamps },
        }
    }

    /// What happens to the other.
    pub open spec fn failing(self) -> Step {
        match self {
            Twin::Attempt { timestamp, peer_addr, stake, now } => Step::Handled {
                show_tx: false,
                msg: TxIngestMsg::Failed { timestamp, peer_addr },
                now,
            },
            Twin::Swept { now, stamps, other_stamps } => Step::Swept { now, stamps: other_stamps },
        }
    }
}

/// What happens to the one state.
pub open spec fn exceeding(twins: Seq<Twin>) -> Seq<Step> {
    twins.map_values(|twin: Twin| twin.exceeding())
}

/// What happens to the other.
pub open spec fn failing(twins: Seq<Twin>) -> Seq<Step> {
    twins.map_values(|twin: Twin| twin.failing())
}

/// Do the counts have the same hosts, and the same numbers, flags and times for each?
pub open spec fn alike<T: Tally, U: Tally>(one: Map<IpAddr, T>, other: Map<IpAddr, U>) -> bool {
    &&& one.dom() == other.dom()
    &&& forall|ip: IpAddr| #[trigger]
        one.contains_key(ip) ==> {
            &&& one[ip].waiting() == other[ip].waiting()
            &&& one[ip].pending() == other[ip].pending()
            &&& one[ip].logged_at() == other[ip].logged_at()
        }
}

/// What a line about attempts reports: when, of which host, how many.
pub open spec fn report(line: LogView) -> (u64, IpAddr, u64) {
    match line {
        Line::Failed { timestamp, host, count } => (timestamp, host, count),
        Line::Exceeded { timestamp, host, stake, count } => (timestamp, host, count),
        _ => (0, IpAddr::V4(0), 0),
    }
}

/// What `lines` report of failed attempts.
pub open spec fn failure_reports(lines: Seq<LogView>) -> Seq<(u64, IpAddr, u64)> {
    lines.filter(|line: LogView| line is Failed).map_values(|line: LogView| report(line))
}

/// What `lines` report of attempts beyond the limits.
pub open spec fn exceed_reports(lines: Seq<LogView>) -> Seq<(u64, IpAddr, u64)> {
    lines.filter(|line: LogView| line is Exceeded).map_values(|line: LogView| report(line))
}

/// What two parts report, they report together.
proof fn lemma_reports_add(a: Seq<LogView>, b: Seq<LogView>)
    ensures
        failure_reports(a + b) == failure_reports(a) + failure_reports(b),
        exceed_reports(a + b) == exceed_reports(a) + exceed_reports(b),
{
    Seq::filter_distributes_over_add(a, b, |line: LogView| line is Failed);
    Seq::filter_distributes_over_add(a, b, |line: LogView| line is Exceeded);
    assert(failure_reports(a + b) =~= failure_reports(a) + failure_reports(b));
    assert(exceed_reports(a + b) =~= exceed_reports(a) + exceed_reports(b));
}

/// What the periodic work reports is what it reports of the hosts that it forgets.
proof fn lemma_reports_swept(state: StateView, now: u64, stamps: Seq<u64>)
    ensures
        failure_reports(state.periodic(now, stamps).lines) == sweep::tallies_logged(
            state.failures,
            table::in_order(state.failures.dom()),
            now,
        ).map_values(|line: LogView| report(line)),
        exceed_reports(state.periodic(now, stamps).lines) == sweep::tallies_logged(
            state.exceeds,
            table::in_order(state.exceeds.dom()),
            now,
        ).map_values(|line: LogView| report(line)),
{
    let peers = table::in_order(state.connections.dom());
    let failures = sweep::tallies_logged(
        state.failures,
        table::in_order(state.failures.dom()),
        now,
    );
    let exceeds = sweep::tallies_logged(state.exceeds, table::in_order(state.exceeds.dom()), now);
    let logged = sweep::connections_logged(state.connections, peers, now, stamps);
    let failed = |line: LogView| line is Failed;
    let exceeded = |line: LogView| line is Exceeded;
    lemma_reports_add(failures + exceeds, logged);
    lemma_reports_add(failures, exceeds);
    lemma_connections_report_no_attempts(state.connections, peers, now, stamps);
    filters::lemma_filter_none(logged, failed);
    filters::lemma_filter_none(logged, exceeded);
    filters::lemma_filter_none(exceeds, failed);
    filters::lemma_filter_none(failures, exceeded);
    filters::lemma_filter_all(failures, failed);
    filters::lemma_filter_all(exceeds, exceeded);
    let reports = |line: LogView| report(line);
    assert(failure_reports(state.periodic(now, stamps).lines) =~= failures.map_values(reports));
    assert(exceed_reports(state.periodic(now, stamps).lines) =~= exceeds.map_values(reports));
}

/// The periodic work on counts that are alike leaves them alike and reports the same.
proof fn lemma_alike_swept(
    one: StateView,
    other: StateView,
    now: u64,
    stamps: Seq<u64>,
    other_stamps: Seq<u64>,
)
    requires
        one.exceeds.dom().finite(),
        alike(one.exceeds, other.failures),
    ensures
        one.periodic(now, stamps).state.exceeds.dom().finite(),
        alike(
            one.periodic(now, stamps).state.exceeds,
            other.periodic(now, other_stamps).state.failures,
        ),
        exceed_reports(one.periodic(now, stamps).lines) == failure_reports(
            other.periodic(now, other_stamps).lines,
        ),
{
    lemma_reports_swept(one, now, stamps);
    lemma_reports_swept(other, now, other_stamps);
    let ips = table::in_order(one.exceeds.dom());
    table::lemma_in_order(one.exceeds.dom());
    let due = sweep::left_over(one.exceeds, now);
    let other_due = sweep::left_over(other.failures, now);
    assert forall|i: int| 0 <= i < ips.len() implies due(#[trigger] ips[i]) == other_due(
        ips[i],
    ) by {
        assert(ips.contains(ips[i]));
        assert(one.exceeds.contains_key(ips[i]));
    }
    filters::lemma_filter_agree(ips, due, other_due);
    let listed = ips.filter(due);
    let lines = sweep::tallies_logged(one.exceeds, ips, now);
    let other_lines = sweep::tallies_logged(other.failures, ips, now);
    assert forall|i: int| 0 <= i < listed.len() implies report(#[trigger] lines[i]) == report(
        other_lines[i],
    ) by {
        assert(listed.contains(listed[i]));
        ips.lemma_filter_contains_rev(due, listed[i]);
        assert(one.exceeds.dom().contains(listed[i]));
        assert(one.exceeds.contains_key(listed[i]));
    }
    assert(lines.map_values(|line: LogView| report(line)) =~= other_lines.map_values(
        |line: LogView| report(line),
    ));
    let kept = one.periodic(now, stamps).state.exceeds;
    vstd::set_lib::lemma_set_subset_finite(one.exceeds.dom(), kept.dom());
    assert forall|ip: IpAddr| kept.dom().contains(ip) == other.periodic(
        now,
        other_stamps,
    ).state.failures.dom().contains(ip) by {
        assert(one.exceeds.dom().contains(ip) == other.failures.dom().contains(ip));
        assert(one.exceeds.contains_key(ip) == other.failures.contains_key(ip));
    }
    assert(kept.dom() =~= other.periodic(now, other_stamps).state.failures.dom());
}

/// One attempt on counts that are alike leaves them alike and reports the same.
proof fn lemma_alike_attempt(
    one: StateView,
    other: StateView,
    ip: IpAddr,
    stake: u64,
    now: u64,
)
    requires
        one.exceeds.dom().finite(),
        alike(one.exceeds, other.failures),
    ensures
        one.exceeded(ip, stake, now).state.exceeds.dom().finite(),
        alike(one.exceeded(ip, stake, now).state.exceeds, other.failed(ip, now).state.failures),
        exceed_reports(one.exceeded(ip, stake, now).lines) == failure_reports(
            other.failed(ip, now).lines,
        ),
{
    assert(one.exceeds.dom().contains(ip) == other.failures.dom().contains(ip));
    assert(one.exceeds.contains_key(ip) == other.failures.contains_key(ip));
    assert(one.exceeded(ip, stake, now).state.exceeds.dom() =~= other.failed(
        ip,
        now,
    ).state.failures.dom());
    let lines = one.exceeded(ip, stake, now).lines;
    let other_lines = other.failed(ip, now).lines;
    filters::lemma_filter_all(lines, |line: LogView| line is Exceeded);
    filters::lemma_filter_all(other_lines, |line: LogView| line is Failed);
    assert(exceed_reports(lines) =~= failure_reports(other_lines));
}

/// Attempts that fail and attempts beyond the limits are counted and reported alike: from counts
/// that are alike, the same attempts and the same periodic work lead to counts that are alike, and
/// the same numbers are reported for the same hosts at the same times.
pub proof fn law_attempts_counted_alike(one: StateView, other: StateView, twins: Seq<Twin>)
    requires
        one.wf(),
        other.wf(),
        alike(one.exceeds, other.failures),
    ensures
        ({
            let outcome = runs::run(one, exceeding(twins));
            let other_outcome = runs::run(other, failing(twins));
            &&& alike(outcome.state.exceeds, other_outcome.state.failures)
            &&& exceed_reports(outcome.lines) == failure_reports(other_outcome.lines)
        }),
{
    lemma_counted_alike(one, other, twins);
}

proof fn lemma_counted_alike(one: StateView, other: StateView, twins: Seq<Twin>)
    requires
        one.exceeds.dom().finite(),
        alike(one.exceeds, other.failures),
    ensures
        ({
            let outcome = runs::run(one, exceeding(twins));
            let other_outcome = runs::run(other, failing(twins));
            &&& outcome.state.exceeds.dom().finite()
            &&& alike(outcome.state.exceeds, other_outcome.state.failures)
            &&& exceed_reports(outcome.lines) == failure_reports(other_outcome.lines)
        }),
    decreases twins.len(),
{
    if twins.len() > 0 {
        let rest = twins.drop_last();
        lemma_counted_alike(one, other, rest);
        assert(exceeding(twins).drop_last() =~= exceeding(rest));
        assert(failing(twins).drop_last() =~= failing(rest));
        assert(exceeding(twins).last() == twins.last().exceeding());
        assert(failing(twins).last() == twins.last().failing());
        let before = runs::run(one, exceeding(rest));
        let other_before = runs::run(other, failing(rest));
        lemma_reports_add(before.lines, twins.last().exceeding().outcome(before.state).lines);
        lemma_reports_add(
            other_before.lines,
            twins.last().failing().outcome(other_before.state).lines,
        );
        match twins.last() {
            Twin::Attempt { timestamp, peer_addr, stake, now } => lemma_alike_attempt(
                before.state,
                other_before.state,
                peer_addr.ip,
                stake,
                now,
            ),
            Twin::Swept { now, stamps, other_stamps } => lemma_alike_swept(
                before.state,
                other_before.state,
                now,
                stamps,
                other_stamps,
            ),
        }
    } else {
        filters::lemma_filter_none(Seq::<LogView>::empty(), |line: LogView| line is Exceeded);
        filters::lemma_filter_none(Seq::<LogView>::empty(), |line: LogView| line is Failed);
        assert(exceed_reports(Seq::empty()) =~= failure_reports(Seq::empty()));
    }
}

} // verus!
