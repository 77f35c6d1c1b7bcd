# witchcraft-server

The verified core of a Witchcraft server, written in Verus.

- `src/` is the library, every function verified: log file rotation and retention
  (`logging::logger::rolling_file`), buffered byte sinks (`byte_buffer`), the asynchronous log
  queue (`async_appender`), JSON line framing and product wrapping, directory cleanup,
  trace span shaping, metric names and gauge scheduling, readiness checks, crash report
  formatting and symbol choice, and some of the log wire types (those that hold no
  dates), with the union envelope decoder and the field layout of log records.
- `app/` holds what the library leaves to its callers: files, clocks, tasks, `Sink` and
  `Future` implementations, the tracer hook and serde plumbing.
- `tests/` exercises the library on concrete values.
