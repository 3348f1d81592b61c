# pg_proto_fuzz

A protocol-level fuzzer for Postgres-compatible databases. It generates sequences of frontend
operations, sends the same sequence to a real Postgres (the oracle) and to a target, compares the
two response streams, and minimizes a sequence that made them differ.

The library is verified with Verus. Everything that touches a network, a clock or a command line
lives in `app/`.

## Layout

| Module | What it holds |
|--------|---------------|
| `op` | operations, names and parameters |
| `wire` | the bytes of operations, through `pg_stream` |
| `profile`, `template` | feature tags, profiles and the SQL templates behind them |
| `random`, `drawing`, `generator` | draws, single operations, sequences from a seed |
| `message` | messages from a server as plain values |
| `runner` | what to send with each flush, when to stop reading, what to record |
| `comparator`, `report` | the first mismatch of two streams, and its report |
| `passes`, `shrinker` | what minimizing means, and the machine that does it |
| `connection`, `session` | where to connect to, and the rules of a session |
| `text` | numbers and texts |

`app/` drives the library: it runs what `plan_sends` plans, feeds a `Collector` what it reads, and
judges the candidates that a `Shrinker` hands out.

## What is trusted

Contracts that are believed rather than proved stand next to the calls they speak of: reading
`pg_stream`'s messages (`message`), writing its frontend messages (`wire`), drawing from `rand`'s
`StdRng` (`random`), and quoting a text the way `Debug` does and reading UTF-8 (`report`).
