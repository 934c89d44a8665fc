# masterserver

The master server of RAGECOOP: game servers announce themselves over HTTP,
players fetch the list of servers that are running.

- `src/` is the verified library (Verus): the server lists and their update
  and cleanup rules (`servers`, and `stats` for the list that keeps player-count
  history), the decisions of the HTTP routes (`routes`), dotted-quad IPv4
  recognition (`ipv4`), console labels of the logger (`logger`) and string
  helpers (`text`).
- `app/` is the program around it: the actix-web routes, the lock around the
  process-wide list, JSON (de)serialisation, configuration and log files.
- `tests/` runs the library on concrete values.
