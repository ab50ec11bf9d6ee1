# vmm_core

Decision logic of a virtual machine monitor, verified with Verus.

- `src/sparse.rs`: which system call punches a hole into, or zeroes, a range of a
  file or block device.
- `src/epoll_helper.rs`, `src/epoll_run.rs`: how a device thread registers its
  events, and what it does next, step by step. `src/epoll_laws.rs` states what
  holds of every run.
- `src/incremental_snapshot.rs` with `src/capture_error.rs`,
  `src/capture_files.rs`, `src/protocol.rs`, `src/restore_layout.rs` and
  `src/text.rs`: the capture of guest memory into a memory file and a manifest.
  `src/capture_laws.rs` and `src/restore_laws.rs` state what a capture keeps and
  what restoring it gives back.
- `src/errors.rs`: error types of other crates that are carried through.

The library performs no input or output. `app/` does that around it: it makes the
system calls, reads guest memory, writes files and serialises the documents.
