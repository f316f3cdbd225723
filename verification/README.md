# ursula_runtime

The verified core of a runtime that keeps append-only streams in replicated groups.

`src/` is the library. Every function in it is proved against its contract:

- `journal`: the framed log format, reading it, writing it, and bringing the older
  unversioned form up to date.
- `cold_index`: index pages for cold data: their stored form, the page store with
  rollback, and the page cache.
- `cold_store`: settings, object paths, range reads, the block cache and injected faults.
- `engine`: what a write does to a group's counters, in memory, in a batch, behind a
  log, and when a log or a snapshot is replayed; and how reads are put together.
- `worker`: what a core and its groups do with requests: admission, batching,
  counting, and readers that wait.
- `metrics`: counters and their snapshot.
- `raft`: the replicated log that is kept in memory.
- `stress`, `cold_worker`, `cold_config`, `env`: settings and the plans made from them.

Public proof functions whose names begin with `law_` state what holds of several
functions together.

`app/` is what surrounds the library: files, object storage, tasks, serialised forms.
`tests/` runs the library on concrete values.
