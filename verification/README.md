# sdk

Guest-side SDK for Sirius Chain smart contracts, verified with Verus.

- `src/` is the verified library: the byte layouts exchanged with the host
  (service payments, aggregate transactions, directory entries), the
  interpretation of the host's status codes, and the state machines that turn
  the host's chunked reads and writes into streams (`read_buffer`, `file`,
  `internet`). Laws stated and proved there include the round trips of every
  byte layout and the in-order, loss-free delivery of buffered reads.
- `app/` holds the host imports (`extern "C"`), the handle wrappers that
  implement `Read`, `Write`, `Iterator` and `Drop` by running the library's
  state machines, and the `check` entry point that parses JSON with serde.
- `tests/` drive the library against simulated hosts.
