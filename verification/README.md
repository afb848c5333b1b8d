# rusty-pingus

A self-hosted uptime monitor (HTTP, TCP, ICMP, public-IP, border and
traceroute checks) whose decision logic is a library verified with Verus.

## Layout

- `src/` — the verified library (`rusty_pingus`):
  - `monitors` — monitor definitions, their defaults and legacy timing keys,
    the monitor list operations, stripping legacy `[[monitors]]` tables;
  - `config` — `config.toml` settings and the legacy seconds-based monitors;
  - `probe` — the meaning of each probe's outcome (`tcp`, `http`, `icmp`,
    `publicip`, `border`, `traceroute`), ICMP echo packets and their parsing,
    gateway discovery and the traceroute walk's bookkeeping;
  - `scheduler` — reconciling running probe tasks with the monitor list,
    first-tick jitter, retention cut-offs and rollup ranges;
  - `db` — the row types, series bucketing, state-segment collapsing;
  - `api` — validation of submitted monitors, query limits, dashboard rows;
  - `cli`, `web`, `text` — the dashboard URL, asset tags, text utilities.
- `tests/` — tests of the library.
- `app/` — the program around it: command line, files, SQLite, sockets,
  HTTP server and client, and the async probe loops.
