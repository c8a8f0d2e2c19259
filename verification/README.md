# bless

`bless` wraps a command, captures its stdout and stderr with timestamps,
writes gzip logs (combined, or split by stream), optionally stores each run
in MongoDB, and answers `ls`, `show` and `fetch` queries over stored runs.

The library under `src/` is written in Verus and verified:

- `cli` — the command-line grammar, as a token machine, and the parser
  proved to compute it;
- `logger` — gzip target naming, which levels reach which split file, and
  the line formats written to stdout and to the archives;
- `query`, `mongo_query` — recognising run files by name, ordering them,
  resolving a run id or prefix, the listing tables and the plans that
  `fetch` carries out;
- `storage_backends`, `db` — embedded blob or GridFS, the metadata
  document of a run, the connection string;
- `rpc` — serve-mode addresses, session file names that are a single plain
  component (no `/`, never `.` or `..`), and the server's bookkeeping of
  live and closed sessions;
- `run` — the decisions of one invocation: serve or wrap, the run's uuid,
  the logger configuration, the metadata log lines, the level of each
  output pipe, the duration text, the exit code;
- `text`, `error` — character-sequence helpers and the error type.

`app/` is the program around it: reading arguments and the environment,
spawning the command, installing the logger, file and database I/O.
`tests/` exercises the library on concrete values.
