# nfs4_server

The protocol logic of an NFSv4.0 / 4.1 server, verified with Verus.

The library holds everything that decides: the wire form of every argument and
result (XDR), filehandles, attributes, the state of clients, sessions and opens,
each operation, and the COMPOUND procedure that runs them. It does no I/O. Where an
operation needs the file system, it stops with a call (`VfsCall`) and goes on when
it is handed the reply (`VfsReply`). Time comes in as nanoseconds.

| Path | What it holds |
| --- | --- |
| `src/xdr.rs`, `src/word.rs`, `src/model.rs` | the XDR trait: encoding, decoding, and that reading gives back what was written |
| `src/table.rs` | a finite map with a proved model |
| `src/nfs.rs`, `src/nfs3.rs`, `src/rpc.rs`, `src/context.rs`, `src/vfs.rs` | strings, filehandles, the file system's types, reply framing, the connection |
| `src/nfs4.rs`, `src/nfs4/session.rs`, `src/nfs4/attr.rs`, `src/nfs4/args.rs` | protocol types |
| `src/nfs4/state_spec.rs` | the server's state as a mathematical value, and every transition of it |
| `src/nfs4/state.rs` | the same, executable |
| `src/nfs4/state_inv.rs`, `src/nfs4/state_laws.rs` | the invariant that every transition keeps, and what follows |
| `src/nfs4/compound.rs`, `src/nfs4/handlers.rs`, `src/nfs4/handlers/` | operations, COMPOUND, and what holds of a COMPOUND as a whole |
| `src/nfs4_state.rs`, `src/nfs4_handlers.rs` | a smaller server that speaks sessions only |
| `src/random.rs` | randomness from the operating system |
| `app/` | tasks, locks, the clock, and the file system around the library |
| `tests/` | the library at work |

Each operation has a spec function that says what it does to the COMPOUND, the
state and the connection, and an executable function that is proved to do exactly
that. Where the system's generator is asked for an id, the contract holds for
whatever it gives.
