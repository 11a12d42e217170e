//! What holds of the clock, of the arguments and of the order of keys.

use crate::addr::{IpAddr, SocketAddr};
use crate::args::Selection;
use crate::table::Key;
use crate::{args, clock, table};
use vstd::prelude::*;

verus! {

/// Milliseconds are whole ones that have gone by; they start again where 64 bits do not hold them.
pub proof fn law_milliseconds(secs: u64, nanos: u32)
    ensures
        ({
            let ms = clock::millis(secs, nanos) as int;
            let elapsed = secs * 1_000_000_000 + nanos;
            &&& elapsed < 0x1_0000_0000_0000_0000 * 1_000_000 ==> ms * 1_000_000 <= elapsed < (ms
                + 1) * 1_000_000
            &&& (elapsed / 1_000_000 - ms) % 0x1_0000_0000_0000_0000 == 0
        }),
{
    let whole = secs * 1000 + nanos / 1_000_000;
    let elapsed = secs * 1_000_000_000 + nanos;
    assert(elapsed / 1_000_000 == whole);
}

/// A wait is over from the moment on that it has lasted, and not before.
pub proof fn law_waiting(start: u64, wait: u64, now: u64, later: u64)
    ensures
        clock::has_passed(now, start, wait) <==> now - start >= wait,
        clock::has_passed(now, start, wait) && later >= now ==> clock::has_passed(
            later,
            start,
            wait,
        ),
{
}

/// Two arguments say where to listen, unless the first is `--show_tx`; put before two arguments,
/// that asks for transactions to be logged, and they say where to listen.  A third argument after an
/// address and a port is ignored; with fewer than two arguments or more than three nothing is said.
pub proof fn law_arguments(args: Seq<Seq<char>>, third: Seq<char>)
    ensures
        args.len() < 2 || args.len() > 3 ==> args::selection(args) is None,
        args.len() == 2 && args[0] != "--show_tx"@ ==> {
            &&& args::selection(args) == Some(Selection { show_tx: false, address: 0 })
            &&& args::selection(args.push(third)) == args::selection(args)
        },
        args.len() == 2 ==> args::selection(seq!["--show_tx"@] + args) == Some(
            Selection { show_tx: true, address: 1 },
        ),
        args.len() == 2 && args[0] == "--show_tx"@ ==> args::selection(args) is None,
{
}

/// Different keys are told apart.
pub proof fn law_keys_differ<K: Key>(a: K, b: K)
    requires
        a != b,
    ensures
        a.raw() != b.raw(),
        table::raw_less(a.raw(), b.raw()) || table::raw_less(b.raw(), a.raw()),
{
    a.lemma_raw_round_trip();
    b.lemma_raw_round_trip();
}

/// Hosts come by version and then by number, peers by host and then by port.
pub proof fn law_order_of_peers(a: SocketAddr, b: SocketAddr, v4: u32, other_v4: u32, v6: u128)
    ensures
        table::raw_less(IpAddr::V4(v4).raw(), IpAddr::V6(v6).raw()),
        v4 < other_v4 ==> table::raw_less(IpAddr::V4(v4).raw(), IpAddr::V4(other_v4).raw()),
        table::raw_less(a.ip.raw(), b.ip.raw()) ==> table::raw_less(a.raw(), b.raw()),
        a.ip == b.ip && a.port < b.port ==> table::raw_less(a.raw(), b.raw()),
{
}

} // verus!
