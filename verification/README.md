# lau_ringbuf

A fixed-capacity circular buffer, `RingBuf<T, N>`, verified with Verus.

- `src/model.rs`: the model: a sequence of items, oldest first, and one spec
  function per operation.
- `src/ringbuf.rs`: the buffer; each operation's contract is stated over the
  model through the buffer's view.
- `src/laws.rs`: properties that span operations (first in first out,
  overwriting keeps the newest items, a full buffer refuses writes, ...).
- `app/lib.rs`: the `f64` signal-analysis types (`VibeRingBuf`,
  `WindowedStats`, `VibeStream`) built on the verified buffer; their
  floating-point arithmetic is not verified.
