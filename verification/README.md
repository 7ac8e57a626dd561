# chunk_io_counters

Byte counters for the chunk IO path: how much was written to disk and how much
was read since the last reset.

- `src/counters.rs`: the counters and the operations on them. Whether they are
  compiled in is a `const` parameter of the type.
- `src/history.rs`: what the counters hold after any run of operations.
- `src/report.rs`: a snapshot as one machine-readable line.
- `app/`: one process-wide set of counters behind a lock, and printing.

The functions in `src/` take the counters by reference and need them exclusively
to change them, so each contract gives the counts after a call exactly.
Operations of several threads take turns at the lock; `history.rs` proves that
the order in which transfers are recorded does not show in the totals.
