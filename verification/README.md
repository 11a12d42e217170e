# txingest-receiver

A receiver for the events that a Solana validator, or a JITO relayer in front of it, sends about its
QUIC connections.  It collates them into log lines from which firewall rules can be made: who fails to
connect, who connects and sends nothing, who repeats transactions, who pays which fees.

The validator and the relayer have to be patched for txingest, and are started with
`--txingest-host HOST:PORT`.

## Running

    txingest-receiver [--show_tx] <LISTEN_ADDRESS> <LISTEN_PORT>

With `--show_tx` every user transaction and every fee is logged as well.

## Log lines

Columns are separated by spaces.  The first is a time in milliseconds since the Unix epoch.

| Line | When |
| --- | --- |
| `failed <HOST> <COUNT>` | every 100 failed attempts to connect or every second, whichever comes first |
| `exceeded <HOST> <STAKE> <COUNT>` | the same for attempts that exceed the connection limits |
| `started <PEER> <STAKE>` | on every start of a connection |
| `inactive <PEER> <STAKE>` | once, when a connection has not delivered anything in its first 10 seconds |
| `active <PEER> <SUMMARY>` | when something has changed, every 10 seconds at most |
| `dropped <PEER> <SUMMARY>` | after the validator ended the connection, 30 seconds after its latest user transaction |
| `closed <PEER> <SUMMARY>` | after the remote peer ended the connection, likewise |
| `dups <PEER> <HOST>...` | with `dropped` or `closed`, if the connection repeated transactions of others |
| `tx <PEER> <SIGNATURE> <LEADER>` | with `--show_tx`, for every user transaction |
| `fee <PEER> <SIGNATURE> <FEE>` | with `--show_tx`, when a transaction has paid its fee |
| `leader_upcoming <SLOTS>`, `leader_begin`, `leader_end` | as the leader slots of the validator come and go |

`<PEER>` is an address with a port, `<HOST>` one without.  `<SUMMARY>` is made of stake, duration,
the numbers of duplicate, vote, user, badly paying and paying transactions, the lowest fee, the
highest and their sum, and `p` if the connection was made before the receiver heard of it, else `c`.
`<LEADER>` is `leader`, `very` (within 2 slots), `soon` (20), `kinda` (200) or `not`.

## Layout

- `src/` is the library, verified with Verus.
  - `message`, `addr` and `signature` hold what events are made of, `log` and `leader` what lines are
    made of.
  - `connection` keeps one connection or the failed attempts of one host, `state` everything, with a
    function for each event; `sweep` is the periodic work and `receiver` decides when to do it.
  - `table` is the ordered map in which all of that is kept.
  - `laws` states what holds across functions: that no attempt to connect goes unreported, that a
    transaction and its fees belong to the connection that first delivered it, that a connection
    is called inactive once at most, and more.
- `tests/` runs the library on concrete values.
- `app/` is the program: arguments, sockets, threads, decoding and printing.

Two things are taken on trust: that the system clock shows less than a second's worth of nanoseconds
next to its seconds, and that the text which `solana_sdk` displays for a signature depends on the
bytes of the signature alone.
