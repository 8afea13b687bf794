# vsock_manager

The manager between client applications and trusted applications (TAs): it takes
requests from vsock connections, starts TA processes when sessions need them,
and keeps account of instances and sessions.

- `src/` is the library, verified with Verus. It decides and computes: which
  instance serves a session, which ids are given out, when an instance is
  retired, how packets are read and framed, and what the rotating key is made
  from. `src/laws.rs` and `src/runs.rs` state what holds across these
  operations.
- `app/` is the process around it: threads, sockets, child processes, clocks and
  TLS.
- `tests/` runs the library on concrete values.

The library makes no system calls. Where a decision depends on the outside, the
caller reports what it saw and is told what to do next; see `src/open.rs` for the
way to an instance and `src/connection.rs` for a client connection.

What is assumed of other crates stands in `src/session_table.rs` (the concurrent
map of `dashmap`) and in `src/packet.rs` (`postcard`, `teec-protocol`).
