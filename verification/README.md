# msy

The verified core of a streaming file synchroniser in the style of rsync,
written in Verus.

- `src/streaming/` — protocol v2: frame and message codecs with exact
  decoding contracts and round-trip laws (`wire`, `protocol`, `messages`,
  `entries`, `transfer`, `xattr`), the destination index (`channel`,
  `table`), the receiver's path checks (`paths`), and the decisions of the
  sender, the receiver and the client pipeline (`sender`, `receiver`,
  `pipeline`).
- `src/delta/` — block size choice and the byte encoding of delta
  operations, with the law that the receiver reads back what the sender's
  chunker wrote.
- `src/server.rs` — the server's answer to the first message and its final
  statistics; `src/transport.rs` — the SSH command line and object-store keys.
- `app/` — the asynchronous I/O around the library (frames over streams,
  files, processes, the object store). It is not verified.
- `tests/` — the tests, run against the compiled library.
