# gaggle

The manager of a distributed load test: it waits for its workers, hands the users of the load test
out to them, has them start together, gathers the statistics that they report, and sees to it that
they stop in time.

- `src/` is the library. Every function in it is verified with Verus.
  - `configuration`: the options that the manager goes by.
  - `goose`: requests, users and the load test itself.
  - `requests`: requests by name.
  - `stats`: merging of counters.
  - `util`: timers.
  - `model`: what the manager knows, and what it makes of what happens.
  - `manager`: the functions that do it.
  - `laws`: what holds of a load test as a whole.
- `app/` opens the socket, encodes and decodes messages, reads the clock, and carries out what the
  library decides.
- `tests/` runs the library on concrete values.

Points in time are nanoseconds on one clock that never goes back. Connections go by numbers that
the application gives them.
