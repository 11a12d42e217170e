//! Collates the events that a Solana validator or relayer sends about its QUIC connections and the
//! transactions that arrive on them.
//!
//! A [`receiver::Receiver`] takes in one [`message::TxIngestMsg`] after the other, keeps a
//! [`state::State`], and logs lines: some at once, others when the periodic work finds them due.
//! Nothing is printed here; lines are appended to a log that the caller hands in, and
//! [`log::columns`] says what each of them shows.
//!
//! What a function does is stated over the views of its arguments: a [`state::StateView`] holds
//! maps and sets where a [`state::State`] holds tables.  For each event there is a function from
//! the view before it to the view after it, and the executable function of the same name is proved
//! to follow it.  The module [`laws`] states what holds of the receiver as a whole.

pub mod addr;
pub mod args;
pub mod clock;
pub mod connection;
pub mod laws;
pub mod leader;
pub mod log;
pub mod message;
pub mod receiver;
pub mod signature;
pub mod state;
pub mod sweep;
pub mod table;
