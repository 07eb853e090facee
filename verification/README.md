# rt_ring

A lock-free single-producer, single-consumer ring buffer that overwrites the
oldest unread sample when it is full.

- `src/ring.rs`: capacity rounding, position-to-slot arithmetic, and
  `RingModel`, the buffer between operations, with the proofs of FIFO order,
  overwrite-oldest and the accounting identity.
- `src/protocol.rs`: the atomic steps of `push` and `pop` as a transition
  system, with an invariant that holds in every interleaving of its steps,
  the proof that an operation running alone does what `RingModel` says, and
  the functions `initial_values`, `push_action`, `pop_action`, `push_step`
  and `pop_step`, whose contracts equal the model's steps.
- `src/shared.rs`: the atomics shared by the two halves. `push` and `pop`
  perform the operations `push_action` and `pop_action` name and take every
  decision through `push_step` and `pop_step`. The values the
  atomics return are not tied to the model, so these operations state
  nothing about the samples and counts they report.
- `src/lib.rs`: `new`, `Producer` and `Consumer`. Samples are the bit
  patterns of `f32` values.
- `app/lib.rs`: the `f32` front end.

Termination: after `usize::MAX` failed compare-exchanges in a row, `push`
abandons the sample without storing it and `pop` returns `None`; `Protocol`
models both.
