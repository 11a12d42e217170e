//! How soon the validator is leader.

use vstd::prelude::*;

verus! {

/// How many slots there are until the validator is leader.
#[derive(Clone, Copy, PartialEq, Eq, Structural, Debug)]
pub enum LeaderStatus {
    /// Not within 200 slots.
    NotSoon,
    /// Within 200 slots.
    KindaSoon,
    /// Within 20 slots.
    Soon,
    /// Within 2 slots.
    VerySoon,
    /// Now leader.
    Leader,
}

impl Default for LeaderStatus {
    fn default() -> (status: LeaderStatus)
        ensures
            status == LeaderStatus::NotSoon,
    {
        LeaderStatus::NotSoon
    }
}

impl LeaderStatus {
    /// The status of a validator that will be leader in `slots` slots.
    pub open spec fn within(slots: u8) -> LeaderStatus {
        if slots > 200 {
            LeaderStatus::NotSoon
        } else if slots > 20 {
            LeaderStatus::KindaSoon
        } else if slots > 2 {
            LeaderStatus::Soon
        } else {
            LeaderStatus::VerySoon
        }
    }

    /// The word that log lines show for this status.
    pub open spec fn word(self) -> Seq<char> {
        match self {
            LeaderStatus::NotSoon => "not"@,
            LeaderStatus::KindaSoon => "kinda"@,
            LeaderStatus::Soon => "soon"@,
            LeaderStatus::VerySoon => "very"@,
            LeaderStatus::Leader => "leader"@,
        }
    }

    /// The status of a validator that will be leader in `slots` slots.
    pub fn from_slots(slots: u8) -> (status: LeaderStatus)
        ensures
            status == LeaderStatus::within(slots),
    {
        if slots <= 2 {
            LeaderStatus::VerySoon
        } else if slots <= 20 {
            LeaderStatus::Soon
        } else if slots <= 200 {
            LeaderStatus::KindaSoon
        } else {
            LeaderStatus::NotSoon
        }
    }

    /// The word that log lines show for this status.
    pub fn text(&self) -> (text: &'static str)
        ensures
            text@ == self.word(),
    {
        match self {
            LeaderStatus::NotSoon => "not",
            LeaderStatus::KindaSoon => "kinda",
            LeaderStatus::Soon => "soon",
            LeaderStatus::VerySoon => "very",
            LeaderStatus::Leader => "leader",
        }
    }
}

} // verus!
