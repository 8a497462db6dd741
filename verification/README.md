# bottomless_harness

A harness for testing how a database server backs up its write-ahead log to an object store and
restores from it, with its logic verified by Verus.

- `src/` is the library. Each module states its contracts over mathematical models:
  - `registry`, `names`: listeners that stay bound for the life of the process, and their keys,
    addresses and directories;
  - `options`, `server`: the configuration of the replicator and of the server under test, and the
    judgement of how it starts;
  - `updates`, `rows`: the update workload, the reading of rows, and the check that a table holds
    what the workload left;
  - `bucket`: emptying buckets and removing snapshots, page by page, and the check whether a bucket
    is empty;
  - `cleaner`: guards that have directories and buckets cleaned up when a test begins and when it
    ends;
  - `stall`: a server that takes every connection and answers none;
  - `wal`, `savepoint`: a write-ahead log that wraps another one, and the record of savepoint events
    that all logs of one manager share;
  - `text`: decimal rendering;
  - `outside`: the calls into other crates and what is relied on of each.
- `tests/` runs the library.
- `app/` holds the sockets, the HTTP clients and the scenarios. It is generic over the database
  server under test, and over the SQL engine that runs on the wrapped log.
