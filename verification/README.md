# mplus-tracker

A web service that tracks World of Warcraft Mythic+ runs of characters and guilds, with
the data of the public Raider.IO API. Its decisions are a library whose contracts are
proved by Verus; ordinary Rust around it does the talking.

- `src/` is the library. It holds no connection and does no input or output: it says which
  request to send, which statement to run and what to make of the reply.
  - `calendar`, `instant`, `time_window`: dates, instants of UTC, and the time windows of
    queries with the weekly resets (EU: Wednesday 07:00 UTC; elsewhere: Tuesday 09:00 in
    New York)
  - `raiderio`: requests to Raider.IO, when to try again and how long to wait
  - `service`: updates of guilds, characters and all characters, step by step
  - `hash`: the hash by which a run is recognised when it is fetched again
  - `db`, `leaderboard`: the statements for SQLite, and what is made of their rows
  - `tables`: a model of what the tables hold, for laws that span several statements
  - `handlers`, `auth`, `models`: requests, refusals and answers
  - `config`, `startup`, `text`: settings, the token, seeding, and text
- `app/` is the service: settings file and environment, HTTP routes, SQLite, Raider.IO.
- `tests/` runs the library with the crates that it calls.

The service reads `config.toml` (or the file that `CONFIG_PATH` names), takes its token
from `API_TOKEN`, and applies the SQL migrations in `./migrations` when it starts. Every
request but `GET /health` must carry `Authorization: Bearer <token>`.
