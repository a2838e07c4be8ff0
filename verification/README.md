# timevote

Consensus and peer-connection logic of a node in a payment network whose
transactions become final at once, written in Rust and verified with Verus.

A transaction that nothing competes with is final as soon as a node has checked
it. One that competes with another is put to a stake-weighted vote of the active
masternodes; votes are signed, collected into proofs, and a transaction that stays
undecided is settled in rounds led by elected masternodes. Nodes find and keep each
other through a table of connections with limits, and a plan of whom to dial.

## Layout

- `src/` is the library. Everything in it is verified: what a function returns and
  changes is stated in its contract over plain mathematical values, and properties
  that span several functions stand as public proof functions beside them.
  - `types`, `table`, `select`, `sums`, `names`, `text`, `scan`: values and
    containers.
  - `crypto`, `clock`, `chance`: hashes, signatures, time and random numbers.
  - `fees`, `thresholds`, `partition`: rules on amounts, quorums and groups.
  - `identity`, `keys`: what a node signs and with which key.
  - `timevote`, `voting`, `proofs`, `ballots`, `rounds`: votes on transactions and
    blocks.
  - `engine`, `validation`, `processing`, `status`, `fallback`, `upkeep`,
    `payments`, `messages`: the engine, from taking a transaction in to settling
    it.
  - `ip`, `connections`, `ping`, `peer`, `dialer`: connections with peers.
- `app/` is ordinary Rust around the library: stores, sockets, timers and tasks. The
  library decides, `app/` carries out.
- `tests/` runs the library.

Functions that read a clock come in two forms. `name_at` takes the time as an
argument and has an exact contract; `name` reads the clock and calls it.
