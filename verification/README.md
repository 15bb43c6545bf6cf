# trustgki

Builds Android GKI kernels with LXC support, KernelSU-Next and SUSFS.

- `src/` is the library: what is edited in the kernel tree, which commands run in which
  order, what becomes of their results, and how targets, versions and names are computed.
  It does no I/O. Files come in and go out as texts, and work on the machine is described
  by the steps of `plan.rs`. Every function is verified with Verus; the modules whose
  names end in `_laws` hold what is proved of several functions together.
- `app/` is the program around it: the command line, the file system, child processes and
  the network.
- `tests/` runs the library on concrete inputs.

The calls into `regex`, `time` and `serde_json` that the library makes stand behind
functions marked `external_body` in `regexes.rs`, `stamp.rs` and `summary.rs`; lower-casing
stands behind one in `targets.rs`. Their contracts are trusted, as is that of
`String::push` in `text.rs`.
