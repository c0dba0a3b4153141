# ephemeral-chat

A terminal chat over Tor, without accounts and without a server. One person hosts a
room behind an onion service and hands out invite codes; others join with a code. The
room is gone when the host leaves.

The library under `src/` holds everything that the program decides: it is written in
Verus, and each function is proved to do what its contract says. It does no input or
output of its own. The program under `app/` runs the sockets, the terminal and the
clock, hands the library what happened, and does what it answers.

## Layout

| module | what it holds |
|---|---|
| `text`, `numeral`, `codec` | text primitives, numerals, base58 and hexadecimal |
| `error`, `types`, `io` | errors, events and peers, outcomes of timed operations |
| `invite` | invite codes: encoding, decoding, validity in time |
| `wire` | length-prefixed frames |
| `payload`, `json` | messages as JSON objects |
| `handshake` | greetings and single-use nonces |
| `roster` | lists of peers, and by what name a peer is known |
| `hub` | the onion service's lifecycle, the registry of peers |
| `connection` | the life of a peer's connection on the hub's side |
| `connector`, `joiner` | reaching a room, and the joiner's main loop |
| `room`, `factory` | handles, and the main loops of hosted and joined rooms |
| `bootstrap` | the lifecycle of a Tor client |
| `command` | subcommands, display names, slash commands |
| `tui`, `render`, `headless` | the terminal interface and the text interface |
| `system` | the clock and randomness |

Laws that span functions stand at the end of the modules they speak of, and, for the
terminal interface, in `tui::laws`.

## What is trusted

Base58 and hexadecimal come from the crates `base58` and `hex`, JSON from `serde_json`,
the time from `chrono`, randomness from `rand`. The few functions of these crates and of the standard library
that the library calls are declared, with what is taken for granted of each, in `codec`,
`json`, `system`, `text` and `types`.

## The program

`app/tor.rs` needs `arti-client`, `tor-hsservice`, `tor-cell`, `tor-rtcompat` and
`safelog` beside the dependencies in `Cargo.toml`.
