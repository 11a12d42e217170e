//! What holds of the log lines.

use crate::addr::{IpAddr, SocketAddr};
use crate::leader::LeaderStatus;
use crate::log::{Action, Column, ColumnView, Line, LogLine, LogView, Summary};
use crate::signature::Signature;
use vstd::prelude::*;

verus! {

/// The timestamp of a line.
pub open spec fn timestamp_of(line: LogView) -> u64 {
    match line {
        Line::Failed { timestamp, host, count } => timestamp,
        Line::Exceeded { timestamp, host, stake, count } => timestamp,
        Line::Started { timestamp, peer, stake } => timestamp,
        Line::Inactive { timestamp, peer, stake } => timestamp,
        Line::Summed { timestamp, action, peer, summary } => timestamp,
        Line::Dups { timestamp, peer, others } => timestamp,
        Line::Tx { timestamp, peer, signature, leader } => timestamp,
        Line::Fee { timestamp, peer, signature, fee } => timestamp,
        Line::LeaderUpcoming { timestamp, slots } => timestamp,
        Line::LeaderBegin { timestamp } => timestamp,
        Line::LeaderEnd { timestamp } => timestamp,
    }
}

/// Every line starts with its timestamp and a verb; a line about a peer names it next.
pub proof fn law_line_format(line: LogView)
    ensures
        line.columns().len() >= 2,
        line.columns()[0] == ColumnView::Number(timestamp_of(line)),
        line.columns()[1] is Word,
        match line {
            Line::Failed { timestamp, host, count } => line.columns()[2] == ColumnView::Ip(host),
            Line::Exceeded { timestamp, host, stake, count } => line.columns()[2] == ColumnView::Ip(
                host,
            ),
            Line::Started { timestamp, peer, stake } => line.columns()[2] == ColumnView::Peer(peer),
            Line::Inactive { timestamp, peer, stake } => line.columns()[2] == ColumnView::Peer(
                peer,
            ),
            Line::Summed { timestamp, action, peer, summary } => line.columns()[2]
                == ColumnView::Peer(peer),
            Line::Dups { timestamp, peer, others } => line.columns()[2] == ColumnView::Peer(peer),
            Line::Tx { timestamp, peer, signature, leader } => line.columns()[2]
                == ColumnView::Peer(peer),
            Line::Fee { timestamp, peer, signature, fee } => line.columns()[2] == ColumnView::Peer(
                peer,
            ),
            _ => true,
        },
{
}

/// The fourteen columns of a summary.
pub proof fn law_summary_columns(timestamp: u64, action: Action, peer: SocketAddr, summary: Summary)
    ensures
        ({
            let columns = Line::<Seq<IpAddr>>::Summed { timestamp, action, peer, summary }.columns();
            &&& columns.len() == 14
            &&& columns[1] == ColumnView::Word(action.word())
            &&& columns[3] == ColumnView::Number(summary.stake)
            &&& columns[4] == ColumnView::Number(summary.duration)
            &&& columns[5] == ColumnView::Number(summary.num_dup_tx)
            &&& columns[6] == ColumnView::Number(summary.num_vote_tx)
            &&& columns[7] == ColumnView::Number(summary.num_user_tx)
            &&& columns[8] == ColumnView::Number(summary.num_badfee_tx)
            &&& columns[9] == ColumnView::Number(summary.num_fee_tx)
            &&& columns[10] == ColumnView::Number(summary.min_fee)
            &&& columns[11] == ColumnView::Number(summary.max_fee)
            &&& columns[12] == ColumnView::Number(summary.total_fees)
            &&& columns[13] == ColumnView::Word(
                if summary.is_partial {
                    "p"@
                } else {
                    "c"@
                },
            )
        }),
{
}

/// How the words for the leader status divide up the slots.
pub proof fn law_leader_words(slots: u8)
    ensures
        LeaderStatus::within(slots).word() == "very"@ <==> slots <= 2,
        LeaderStatus::within(slots).word() == "soon"@ <==> 3 <= slots <= 20,
        LeaderStatus::within(slots).word() == "kinda"@ <==> 21 <= slots <= 200,
        LeaderStatus::within(slots).word() == "not"@ <==> slots > 200,
{
    reveal_strlit("not");
    reveal_strlit("kinda");
    reveal_strlit("soon");
    reveal_strlit("very");
    assert("kinda"@.len() == 5 && "not"@.len() == 3 && "soon"@.len() == 4 && "very"@.len() == 4);
    assert("soon"@[0] != "very"@[0]);
}

/// What lines about attempts to connect show.
pub proof fn law_attempt_columns(timestamp: u64, host: IpAddr, stake: u64, count: u64)
    ensures
        (Line::<Seq<IpAddr>>::Failed { timestamp, host, count }).columns() == seq![
            ColumnView::Number(timestamp),
            ColumnView::Word("failed"@),
            ColumnView::Ip(host),
            ColumnView::Number(count),
        ],
        (Line::<Seq<IpAddr>>::Exceeded { timestamp, host, stake, count }).columns() == seq![
            ColumnView::Number(timestamp),
            ColumnView::Word("exceeded"@),
            ColumnView::Ip(host),
            ColumnView::Number(stake),
            ColumnView::Number(count),
        ],
{
}

/// What lines about connections show besides summaries.
pub proof fn law_connection_columns(
    timestamp: u64,
    peer: SocketAddr,
    stake: u64,
    others: Seq<IpAddr>,
    i: int,
)
    requires
        0 <= i < others.len(),
    ensures
        (Line::<Seq<IpAddr>>::Started { timestamp, peer, stake }).columns() == seq![
            ColumnView::Number(timestamp),
            ColumnView::Word("started"@),
            ColumnView::Peer(peer),
            ColumnView::Number(stake),
        ],
        (Line::<Seq<IpAddr>>::Inactive { timestamp, peer, stake }).columns() == seq![
            ColumnView::Number(timestamp),
            ColumnView::Word("inactive"@),
            ColumnView::Peer(peer),
            ColumnView::Number(stake),
        ],
        ({
            let columns = Line::<Seq<IpAddr>>::Dups { timestamp, peer, others }.columns();
            &&& columns.len() == 3 + others.len()
            &&& columns[0] == ColumnView::Number(timestamp)
            &&& columns[1] == ColumnView::Word("dups"@)
            &&& columns[2] == ColumnView::Peer(peer)
            &&& columns[3 + i] == ColumnView::Ip(others[i])
        }),
{
}

/// What the verbs of summaries are, and where a summary names its peer.
pub proof fn law_summary_verbs(timestamp: u64, peer: SocketAddr, summary: Summary)
    ensures
        (Line::<Seq<IpAddr>>::Summed {
            timestamp,
            action: Action::Active,
            peer,
            summary,
        }).columns()[1] == ColumnView::Word("active"@),
        (Line::<Seq<IpAddr>>::Summed {
            timestamp,
            action: Action::Dropped,
            peer,
            summary,
        }).columns()[1] == ColumnView::Word("dropped"@),
        (Line::<Seq<IpAddr>>::Summed {
            timestamp,
            action: Action::Closed,
            peer,
            summary,
        }).columns()[1] == ColumnView::Word("closed"@),
{
}

/// What lines about transactions show.
pub proof fn law_transaction_columns(
    timestamp: u64,
    peer: SocketAddr,
    signature: Signature,
    leader: LeaderStatus,
    fee: u64,
)
    ensures
        (Line::<Seq<IpAddr>>::Tx { timestamp, peer, signature, leader }).columns() == seq![
            ColumnView::Number(timestamp),
            ColumnView::Word("tx"@),
            ColumnView::Peer(peer),
            ColumnView::Word(crate::signature::base58(signature.bytes@)),
            ColumnView::Word(
                match leader {
                    LeaderStatus::NotSoon => "not"@,
                    LeaderStatus::KindaSoon => "kinda"@,
                    LeaderStatus::Soon => "soon"@,
                    LeaderStatus::VerySoon => "very"@,
                    LeaderStatus::Leader => "leader"@,
                },
            ),
        ],
        (Line::<Seq<IpAddr>>::Fee { timestamp, peer, signature, fee }).columns() == seq![
            ColumnView::Number(timestamp),
            ColumnView::Word("fee"@),
            ColumnView::Peer(peer),
            ColumnView::Word(crate::signature::base58(signature.bytes@)),
            ColumnView::Number(fee),
        ],
{
}

/// What lines about the leader show.
pub proof fn law_leader_columns(timestamp: u64, slots: u8)
    ensures
        (Line::<Seq<IpAddr>>::LeaderUpcoming { timestamp, slots }).columns() == seq![
            ColumnView::Number(timestamp),
            ColumnView::Word("leader_upcoming"@),
            ColumnView::Number(slots as u64),
        ],
        (Line::<Seq<IpAddr>>::LeaderBegin { timestamp }).columns() == seq![
            ColumnView::Number(timestamp),
            ColumnView::Word("leader_begin"@),
        ],
        (Line::<Seq<IpAddr>>::LeaderEnd { timestamp }).columns() == seq![
            ColumnView::Number(timestamp),
            ColumnView::Word("leader_end"@),
        ],
{
}

/// A log line is seen as it is, and so is a column: a line differs in nothing but that it lists
/// hosts in a `Vec`, and a text is seen like a word.
pub proof fn law_lines_are_seen_as_they_are(line: LogLine, column: Column)
    ensures
        match line {
            Line::Failed { timestamp, host, count } => line@ == (Line::<Seq<IpAddr>>::Failed {
                timestamp,
                host,
                count,
            }),
            Line::Exceeded { timestamp, host, stake, count } => line@ == (Line::<Seq<IpAddr>>::Exceeded {
                timestamp,
                host,
                stake,
                count,
            }),
            Line::Started { timestamp, peer, stake } => line@ == (Line::<Seq<IpAddr>>::Started {
                timestamp,
                peer,
                stake,
            }),
            Line::Inactive { timestamp, peer, stake } => line@ == (Line::<Seq<IpAddr>>::Inactive {
                timestamp,
                peer,
                stake,
            }),
            Line::Summed { timestamp, action, peer, summary } => line@ == (Line::<Seq<IpAddr>>::Summed {
                timestamp,
                action,
                peer,
                summary,
            }),
            Line::Dups { timestamp, peer, others } => line@ == (Line::<Seq<IpAddr>>::Dups {
                timestamp,
                peer,
                others: others@,
            }),
            Line::Tx { timestamp, peer, signature, leader } => line@ == (Line::<Seq<IpAddr>>::Tx {
                timestamp,
                peer,
                signature,
                leader,
            }),
            Line::Fee { timestamp, peer, signature, fee } => line@ == (Line::<Seq<IpAddr>>::Fee {
                timestamp,
                peer,
                signature,
                fee,
            }),
            Line::LeaderUpcoming { timestamp, slots } => line@ == (Line::<Seq<IpAddr>>::LeaderUpcoming {
                timestamp,
                slots,
            }),
            Line::LeaderBegin { timestamp } => line@ == (Line::<Seq<IpAddr>>::LeaderBegin { timestamp }),
            Line::LeaderEnd { timestamp } => line@ == (Line::<Seq<IpAddr>>::LeaderEnd { timestamp }),
        },
        match column {
            Column::Number(number) => column@ == ColumnView::Number(number),
            Column::Word(word) => column@ == ColumnView::Word(word@),
            Column::Text(text) => column@ == ColumnView::Word(text@),
            Column::Ip(ip) => column@ == ColumnView::Ip(ip),
            Column::Peer(peer) => column@ == ColumnView::Peer(peer),
        },
{
}

/// Every line of a log, and every column of a row, is seen, in its place.
pub proof fn law_logs_are_seen_in_order(log: Seq<LogLine>, row: Seq<Column>, i: int)
    ensures
        crate::log::shown(log).len() == log.len(),
        0 <= i < log.len() ==> crate::log::shown(log)[i] == log[i]@,
        crate::log::columns_shown(row).len() == row.len(),
        0 <= i < row.len() ==> crate::log::columns_shown(row)[i] == row[i]@,
{
}

} // verus!
