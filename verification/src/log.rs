//! The lines that the receiver logs.
//!
//! A line is a row of columns: a timestamp, a verb, in most cases a peer, then details.  Which line
//! is logged when is decided elsewhere; this module says what the columns of each line are.

use crate::addr::{IpAddr, SocketAddr};
use crate::leader::LeaderStatus;
use crate::signature::Signature;
use vstd::prelude::*;

verus! {

/// What a summary of a connection reports about it.
#[derive(Clone, Copy, PartialEq, Eq, Structural, Debug)]
pub enum Action {
    /// The connection is open.
    Active,
    /// The validator closed the connection.
    Dropped,
    /// The remote peer closed the connection.
    Closed,
}

/// What a summary of a connection counts.
#[derive(Clone, Copy, PartialEq, Eq, Structural, Debug)]
pub struct Summary {
    /// Lamports of stake of the peer.
    pub stake: u64,
    /// How long the connection lasted or has lasted so far, in milliseconds.
    pub duration: u64,
    pub num_dup_tx: u64,
    pub num_vote_tx: u64,
    pub num_user_tx: u64,
    pub num_badfee_tx: u64,
    pub num_fee_tx: u64,
    pub min_fee: u64,
    pub max_fee: u64,
    pub total_fees: u64,
    /// Was the connection made before its events were received?
    pub is_partial: bool,
}

/// A log line; `P` lists the peers of a line that names several.
#[derive(Clone, PartialEq, Eq, Debug)]
pub enum Line<P> {
    /// Attempts to connect that failed.
    Failed { timestamp: u64, host: IpAddr, count: u64 },
    /// Attempts to connect that exceeded the connection limits.
    Exceeded { timestamp: u64, host: IpAddr, stake: u64, count: u64 },
    /// A connection was made.
    Started { timestamp: u64, peer: SocketAddr, stake: u64 },
    /// A connection has not delivered any transaction.
    Inactive { timestamp: u64, peer: SocketAddr, stake: u64 },
    /// What a connection has delivered.
    Summed { timestamp: u64, action: Action, peer: SocketAddr, summary: Summary },
    /// Hosts that had sent transactions which a connection sent again.
    Dups { timestamp: u64, peer: SocketAddr, others: P },
    /// A transaction arrived.
    Tx { timestamp: u64, peer: SocketAddr, signature: Signature, leader: LeaderStatus },
    /// A transaction paid its fee.
    Fee { timestamp: u64, peer: SocketAddr, signature: Signature, fee: u64 },
    /// The validator will be leader.
    LeaderUpcoming { timestamp: u64, slots: u8 },
    /// The validator is leader.
    LeaderBegin { timestamp: u64 },
    /// The validator is no longer leader.
    LeaderEnd { timestamp: u64 },
}

/// A log line.
pub type LogLine = Line<Vec<IpAddr>>;

/// What contracts see of a log line.
pub type LogView = Line<Seq<IpAddr>>;

impl View for Line<Vec<IpAddr>> {
    type V = LogView;

    open spec fn view(&self) -> LogView {
        match *self {
            Line::Failed { timestamp, host, count } => Line::Failed { timestamp, host, count },
            Line::Exceeded { timestamp, host, stake, count } => Line::Exceeded {
                timestamp,
                host,
                stake,
                count,
            },
            Line::Started { timestamp, peer, stake } => Line::Started { timestamp, peer, stake },
            Line::Inactive { timestamp, peer, stake } => Line::Inactive { timestamp, peer, stake },
            Line::Summed { timestamp, action, peer, summary } => Line::Summed {
                timestamp,
                action,
                peer,
                summary,
            },
            Line::Dups { timestamp, peer, others } => Line::Dups {
                timestamp,
                peer,
                others: others@,
            },
            Line::Tx { timestamp, peer, signature, leader } => Line::Tx {
                timestamp,
                peer,
                signature,
                leader,
            },
            Line::Fee { timestamp, peer, signature, fee } => Line::Fee {
                timestamp,
                peer,
                signature,
                fee,
            },
            Line::LeaderUpcoming { timestamp, slots } => Line::LeaderUpcoming { timestamp, slots },
            Line::LeaderBegin { timestamp } => Line::LeaderBegin { timestamp },
            Line::LeaderEnd { timestamp } => Line::LeaderEnd { timestamp },
        }
    }
}

/// What contracts see of a log.
pub open spec fn shown(log: Seq<LogLine>) -> Seq<LogView> {
    log.map_values(|line: LogLine| line@)
}

/// Logs `line`.
pub fn emit(log: &mut Vec<LogLine>, line: LogLine)
    ensures
        shown(final(log)@) == shown(old(log)@).push(line@),
        shown(final(log)@) == shown(old(log)@) + seq![line@],
{
    log.push(line);
    proof {
        assert(shown(log@) =~= shown(old(log)@).push(line@));
        assert(shown(log@) =~= shown(old(log)@) + seq![line@]);
    }
}

/// One column of a log line.
#[derive(Clone, PartialEq, Eq, Debug)]
pub enum Column {
    Number(u64),
    Word(&'static str),
    Text(String),
    Ip(IpAddr),
    Peer(SocketAddr),
}

/// What contracts see of a column.
pub enum ColumnView {
    Number(u64),
    Word(Seq<char>),
    Ip(IpAddr),
    Peer(SocketAddr),
}

impl View for Column {
    type V = ColumnView;

    open spec fn view(&self) -> ColumnView {
        match *self {
            Column::Number(n) => ColumnView::Number(n),
            Column::Word(word) => ColumnView::Word(word@),
            Column::Text(text) => ColumnView::Word(text@),
            Column::Ip(ip) => ColumnView::Ip(ip),
            Column::Peer(peer) => ColumnView::Peer(peer),
        }
    }
}

/// What contracts see of a row of columns.
pub open spec fn columns_shown(columns: Seq<Column>) -> Seq<ColumnView> {
    columns.map_values(|column: Column| column@)
}

impl Action {
    /// The verb of a summary.
    pub open spec fn word(self) -> Seq<char> {
        match self {
            Action::Active => "active"@,
            Action::Dropped => "dropped"@,
            Action::Closed => "closed"@,
        }
    }

    /// The verb of a summary.
    pub fn text(&self) -> (text: &'static str)
        ensures
            text@ == self.word(),
    {
        match self {
            Action::Active => "active",
            Action::Dropped => "dropped",
            Action::Closed => "closed",
        }
    }
}

impl Line<Seq<IpAddr>> {
    /// The columns of the line.
    pub open spec fn columns(self) -> Seq<ColumnView> {
        match self {
            Line::Failed { timestamp, host, count } => seq![
                ColumnView::Number(timestamp),
                ColumnView::Word("failed"@),
                ColumnView::Ip(host),
                ColumnView::Number(count),
            ],
            Line::Exceeded { timestamp, host, stake, count } => seq![
                ColumnView::Number(timestamp),
                ColumnView::Word("exceeded"@),
                ColumnView::Ip(host),
                ColumnView::Number(stake),
                ColumnView::Number(count),
            ],
            Line::Started { timestamp, peer, stake } => seq![
                ColumnView::Number(timestamp),
                ColumnView::Word("started"@),
                ColumnView::Peer(peer),
                ColumnView::Number(stake),
            ],
            Line::Inactive { timestamp, peer, stake } => seq![
                ColumnView::Number(timestamp),
                ColumnView::Word("inactive"@),
                ColumnView::Peer(peer),
                ColumnView::Number(stake),
            ],
            Line::Summed { timestamp, action, peer, summary } => seq![
                ColumnView::Number(timestamp),
                ColumnView::Word(action.word()),
                ColumnView::Peer(peer),
                ColumnView::Number(summary.stake),
                ColumnView::Number(summary.duration),
                ColumnView::Number(summary.num_dup_tx),
                ColumnView::Number(summary.num_vote_tx),
                ColumnView::Number(summary.num_user_tx),
                ColumnView::Number(summary.num_badfee_tx),
                ColumnView::Number(summary.num_fee_tx),
                ColumnView::Number(summary.min_fee),
                ColumnView::Number(summary.max_fee),
                ColumnView::Number(summary.total_fees),
                ColumnView::Word(if summary.is_partial { "p"@ } else { "c"@ }),
            ],
            Line::Dups { timestamp, peer, others } => seq![
                ColumnView::Number(timestamp),
                ColumnView::Word("dups"@),
                ColumnView::Peer(peer),
            ] + others.map_values(|ip: IpAddr| ColumnView::Ip(ip)),
            Line::Tx { timestamp, peer, signature, leader } => seq![
                ColumnView::Number(timestamp),
                ColumnView::Word("tx"@),
                ColumnView::Peer(peer),
                ColumnView::Word(crate::signature::base58(signature.bytes@)),
                ColumnView::Word(leader.word()),
            ],
            Line::Fee { timestamp, peer, signature, fee } => seq![
                ColumnView::Number(timestamp),
                ColumnView::Word("fee"@),
                ColumnView::Peer(peer),
                ColumnView::Word(crate::signature::base58(signature.bytes@)),
                ColumnView::Number(fee),
            ],
            Line::LeaderUpcoming { timestamp, slots } => seq![
                ColumnView::Number(timestamp),
                ColumnView::Word("leader_upcoming"@),
                ColumnView::Number(slots as u64),
            ],
            Line::LeaderBegin { timestamp } => seq![
                ColumnView::Number(timestamp),
                ColumnView::Word("leader_begin"@),
            ],
            Line::LeaderEnd { timestamp } => seq![
                ColumnView::Number(timestamp),
                ColumnView::Word("leader_end"@),
            ],
        }
    }
}

/// The columns of `line`.
pub fn columns(line: &LogLine) -> (columns: Vec<Column>)
    ensures
        columns_shown(columns@) == line@.columns(),
{
    let mut columns: Vec<Column> = Vec::new();
    match line {
        Line::Failed { timestamp, host, count } => {
            columns.push(Column::Number(*timestamp));
            columns.push(Column::Word("failed"));
            columns.push(Column::Ip(*host));
            columns.push(Column::Number(*count));
        },
        Line::Exceeded { timestamp, host, stake, count } => {
            columns.push(Column::Number(*timestamp));
            columns.push(Column::Word("exceeded"));
            columns.push(Column::Ip(*host));
            columns.push(Column::Number(*stake));
            columns.push(Column::Number(*count));
        },
        Line::Started { timestamp, peer, stake } => {
            columns.push(Column::Number(*timestamp));
            columns.push(Column::Word("started"));
            columns.push(Column::Peer(*peer));
            columns.push(Column::Number(*stake));
        },
        Line::Inactive { timestamp, peer, stake } => {
            columns.push(Column::Number(*timestamp));
            columns.push(Column::Word("inactive"));
            columns.push(Column::Peer(*peer));
            columns.push(Column::Number(*stake));
        },
        Line::Summed { timestamp, action, peer, summary } => {
            columns.push(Column::Number(*timestamp));
            columns.push(Column::Word(action.text()));
            columns.push(Column::Peer(*peer));
            columns.push(Column::Number(summary.stake));
            columns.push(Column::Number(summary.duration));
            columns.push(Column::Number(summary.num_dup_tx));
            columns.push(Column::Number(summary.num_vote_tx));
            columns.push(Column::Number(summary.num_user_tx));
            columns.push(Column::Number(summary.num_badfee_tx));
            columns.push(Column::Number(summary.num_fee_tx));
            columns.push(Column::Number(summary.min_fee));
            columns.push(Column::Number(summary.max_fee));
            columns.push(Column::Number(summary.total_fees));
            columns.push(
                Column::Word(
                    if summary.is_partial {
                        "p"
                    } else {
                        "c"
                    },
                ),
            );
        },
        Line::Dups { timestamp, peer, others } => {
            columns.push(Column::Number(*timestamp));
            columns.push(Column::Word("dups"));
            columns.push(Column::Peer(*peer));
            let ghost head = columns@;
            for i in 0..others.len()
                invariant
                    head.len() == 3,
                    columns@.len() == 3 + i,
                    columns@.take(3) == head,
                    forall|j: int| 0 <= j < i ==> #[trigger] columns@[3 + j] == Column::Ip(others@[j]),
            {
                columns.push(Column::Ip(others[i]));
                assert(columns@.take(3) =~= head);
            }
            proof {
                assert forall|j: int| 0 <= j < columns@.len() implies #[trigger] columns_shown(
                    columns@,
                )[j] == line@.columns()[j] by {
                    if j < 3 {
                        assert(columns@[j] == columns@.take(3)[j]);
                    } else {
                        assert(columns@[3 + (j - 3)] == Column::Ip(others@[j - 3]));
                    }
                }
            }
        },
        Line::Tx { timestamp, peer, signature, leader } => {
            columns.push(Column::Number(*timestamp));
            columns.push(Column::Word("tx"));
            columns.push(Column::Peer(*peer));
            columns.push(Column::Text(signature.text()));
            columns.push(Column::Word(leader.text()));
        },
        Line::Fee { timestamp, peer, signature, fee } => {
            columns.push(Column::Number(*timestamp));
            columns.push(Column::Word("fee"));
            columns.push(Column::Peer(*peer));
            columns.push(Column::Text(signature.text()));
            columns.push(Column::Number(*fee));
        },
        Line::LeaderUpcoming { timestamp, slots } => {
            columns.push(Column::Number(*timestamp));
            columns.push(Column::Word("leader_upcoming"));
            columns.push(Column::Number(*slots as u64));
        },
        Line::LeaderBegin { timestamp } => {
            columns.push(Column::Number(*timestamp));
            columns.push(Column::Word("leader_begin"));
        },
        Line::LeaderEnd { timestamp } => {
            columns.push(Column::Number(*timestamp));
            columns.push(Column::Word("leader_end"));
        },
    }
    assert(columns_shown(columns@) =~= line@.columns());
    columns
}

} // verus!
