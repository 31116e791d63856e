# tierfs

tierfs is a tiered filesystem: a FUSE mount over several backend
directories ("tiers"), and a daemon that periodically moves files between
them so that the most popular files sit on the fastest tier, within each
tier's quota.

The crate is in two parts.

- `src/` is the library, verified with Verus. It holds the logic of the
  project, each public function with a contract:
  - `text` — character-level helpers (trimming, splitting on whitespace,
    ASCII case folding, the `u64` grammar, Unix path joining);
  - `decimal` — the grammar of numbers that `f64::from_str` accepts;
  - `config` — size and quota strings taken apart, the `tierfs.conf`
    settings and tier definitions, the per-configuration run directory;
  - `tier` — tiers, files, usage accounting and resolved quotas;
  - `strategy` — the placement of ranked files on tiers (first fit within
    quota), with its laws;
  - `tools` — command names, ad-hoc jobs, path sanitizing, the client's requests, key renames after a directory rename;
  - `engine` — the client/daemon protocol, the daemon's replies, pin and
    unpin targets, crawl decisions and the daemon's main-loop steps;
  - `open_files` — the open-file registry and the FUSE layer's per-handle
    bookkeeping.
- `app/` is ordinary Rust around the library: the binaries, file and socket
  I/O, the SQLite metadata store, the FUSE callbacks, and what is
  floating-point arithmetic: the byte counts of sizes and percentage
  quotas, and the popularity ranking.

`tests/` exercises the library on concrete values.

The open-file registry (`open_files::OpenFiles`) keeps its paths in a `Vec`
with the invariant that no path occurs twice, and is viewed as a set of
paths. A `HashSet<String>` would do the same work, but with `String` keys
Verus accepts the calls without proving what the set holds after an
insertion or a removal (its key model covers integer keys); with the `Vec`
every operation is proved against the set view.
