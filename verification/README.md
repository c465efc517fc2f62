# Gravital Talk

Real-time audio between two peers over UDP, with a relay for those who cannot
reach each other. The core is written in Verus: the functions in `src/` carry
contracts that the verifier proves. The proofs rest on the contracts of the items
marked as external, which state what the outside crates and the standard library
do; those are believed. Nothing is promised of what is drawn at random.

- `src/` — the verified library
  - wire format: `header`, `packet`, `checksum`, `message`, `wire`, `offsets`
  - keys and encryption: `keys`, `crypto`
  - sessions: `session_state`, `session`, `handshake`, `stream`, `config`, `counters`
  - audio path: `fec`, `jitter_buffer`, `congestion`, `tone`
  - relay: `router`, `relay`, `rooms`, `observability`, `relay_config`, `relay_metrics`
  - around it: `stun`, `discovery`, `ffi`, `cli`, `text`, `addr`
- `tests/` — tests that run the library with its outside crates
- `app/` — sockets, files, the command line, HTTP, and the C and Java interfaces

The library does no input or output. It takes datagrams, times and random bytes
as values and hands back the datagrams to send.

## A packet

| bytes | field |
|-------|-------|
| 0–1   | magic `GS` |
| 2     | version |
| 3     | flags |
| 4     | message type |
| 5–7   | reserved, zero |
| 8–11  | session id |
| 12–15 | sequence number |
| 16–23 | timestamp in µs |
| 24–   | payload |
| last 4 | length of the payload, then CRC-16/CCITT-FALSE of all that stands before it |

Numbers are big-endian.
