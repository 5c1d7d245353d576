# pgbr

A verified library for backing up PostgreSQL clusters: what `restore`, `verify`,
the `stanza-*` commands and the worker role decide, and how the streams of the
compression codecs are driven. Every function under `src/` is proved against its
contract, with one exception: `json_integer` in `src/restore/select.rs` hands a text
to `serde_json`, and its contract is trusted.

- `src/restore/`: which backup is taken, where the bytes of each file lie, what a
  delta restore leaves alone, what becomes of links, and the recovery settings
  that are left behind. `session.rs` puts the steps in their order.
- `src/verify/`: what is wrong with the files of a backup, the archive and the
  info files, and how it is reported.
- `src/stanza/`: which cluster a stanza is for, and what its info files record.
- `src/compress/`: kinds of compression, parameter lists, and the runs that feed
  an encoder or a decoder.
- `src/worker.rs`, `src/protocol.rs`: which requests a worker takes.
- `src/retry.rs`: when a job that failed is tried again.
- `src/text.rs`, `src/textmap.rs`, `src/paths.rs`, `src/config.rs`, `src/info.rs`,
  `src/history.rs`: what the rest stands on.

Functions named `law_…` state what holds across several of the others.

`app/` is the ordinary Rust around the library: files, threads, the C codecs, and
the services (digests, ciphers, info-file formats, locks, servers) that it reaches
through traits.
