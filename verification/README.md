# obsfuse

A FUSE filesystem over Huawei Cloud OBS object storage, whose logic is
specified and proved with Verus.

## Layout

- `src/` — the verified library.
  - `cache/` — the in-memory block cache (LRU by a logical clock, with a
    byte budget), the on-disk block index, the metadata cache (attributes,
    directory listings, negative entries, each with a time to live), the
    readahead detector and the write buffers.
  - `fs/` — inodes and their paths, file handles, attributes, directory
    listings, permission checks, platform constants, the filesystem core
    (each operation as a step from state and storage reply to new state and
    reply) and the decisions of the Windows adapter.
  - `storage/` — multipart upload bookkeeping, object metadata and the retry
    decision.
  - `config.rs` — configuration, its defaults, validation and the
    command-line overrides.
  - `utils/` — errors and their errno mapping, metrics counters, text and
    byte-buffer helpers, clocks.
- `app/` — the program: command line, configuration files, the OpenDAL
  storage client, the FUSE session that runs the core's steps, and the
  metrics report.
- `tests/` — tests of the library.

Each module states its operations over mathematical models (sequences, maps,
sets of plain values) in `requires`/`ensures`, and proof functions named
`lemma_*` state the laws that relate several operations, such as a read of a
cached block giving back what was put.

The tables keyed by inode, handle, path or (inode, offset) are `dashmap`
maps. Verus sees each through a name for what it holds and a few trusted
wrappers of `DashMap` methods, whose contracts say what each call does to
those contents.
