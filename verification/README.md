# bmw

The building blocks of a small networking stack, verified with Verus: a configurable
logger, non-blocking read/write locks that refuse a thread a second guard of a lock it
holds, a non-blocking event handler
(read slabs, read chains, write states, connection tables, poller registrations), a
byte serialization format, the cells and channel protocol of a relay network with its
layered relay cryptography, and a minimal HTTP responder.

## Layout

- `src/` — the verified library. Every executable function is verified, and carries a contract
  wherever its result is not the clock's, the machine's or chance's; the
  laws the library keeps (what a read gives back of a write, what a lookup finds after an
  insert, what a registration does the second time, ...) are stated and proved as public
  proof functions.
  - `error.rs` — error kinds and errors, and the conversions of foreign errors.
  - `text.rs`, `bytes.rs` — decimal text and big-endian numbers.
  - `log_types.rs`, `log_core.rs`, `log_laws.rs`, `frames.rs`, `paths.rs` — the logger:
    configuration, line composition, rotation decisions and call-site lookup.
  - `lock.rs` — read/write locks taken without waiting, which record in a registry the
    locks a thread holds and refuse a lock already held there.
  - `slabs.rs`, `read_chain.rs`, `write_state.rs`, `evh_config.rs`, `conn_info.rs`,
    `conn_table.rs`, `accept.rs`, `poll.rs`, `evh_context.rs`, `evh_laws.rs` — the event
    handler's state and decisions.
  - `ser.rs` — the `Writer`, `Reader` and `Serializable` traits and their impls.
  - `cell.rs`, `channel.rs`, `circuit.rs`, `crypt.rs`, `relay.rs` — relay cells, channels,
    circuits, and the relay crypto layers (AES-256 counter mode and running SHA3-256
    digests).
  - `http.rs`, `startup.rs` — the HTTP responder's configuration and page, and start-up
    checks.
  - `rng.rs` — random numbers.
- `tests/` — tests that run the library on concrete values.
- `app/` — the program around the library: file and socket I/O, the polling loop,
  the lock guards and `main`.
