//! The arguments of the program.

use vstd::prelude::*;

verus! {

/// Which arguments say where to listen.
#[derive(Clone, Copy, PartialEq, Eq, Structural, Debug)]
pub struct Selection {
    /// Is each transaction to be logged?
    pub show_tx: bool,
    /// The index of the address to listen at; that of the port comes after it.
    pub address: usize,
}

/// Which of `args` say where to listen: `[--show_tx] <LISTEN_ADDRESS> <LISTEN_PORT>`.  What follows
/// the port is ignored as long as there are no more than three arguments in all.
pub open spec fn selection(args: Seq<Seq<char>>) -> Option<Selection> {
    if args.len() < 2 || args.len() > 3 {
        None
    } else if args[0] != "--show_tx"@ {
        Some(Selection { show_tx: false, address: 0 })
    } else if args.len() == 3 {
        Some(Selection { show_tx: true, address: 1 })
    } else {
        None
    }
}

/// Which of `args` say where to listen, or nothing when their number is not right.
pub fn select(args: &Vec<String>) -> (selected: Option<Selection>)
    ensures
        selected == selection(args@.map_values(|arg: String| arg@)),
        selected matches Some(s) ==> s.address + 1 < args@.len(),
{
    if args.len() < 2 || args.len() > 3 {
        return None;
    }
    if args[0] != "--show_tx".to_owned() {
        Some(Selection { show_tx: false, address: 0 })
    } else if args.len() == 3 {
        Some(Selection { show_tx: true, address: 1 })
    } else {
        None
    }
}

} // verus!
