# central_api_lib

The central api relays files between agents (which hold files and connect over a websocket)
and clients (which ask for a file, its metadata, or an agent's status over http).

`src/` is the verified library. It holds the decisions of the api, each with a contract proved
by Verus:

- `timelocked_hashmap`: a map that remembers insertion order and time, backed by
  `linked-hash-map`, so that the oldest entry is always at the front.
- `state`: the agents that are connected, those still authenticating, and the client requests
  waiting for an answer, with the sweep that drops what has expired.
- `endpoints`: registration and its authorization check, the websocket session of an agent
  (its authentication, pings, shutdown and what it does with each frame), and the bookkeeping
  of uploads, downloads and status requests.
- `db`, `models`, `structs`: the stored form of an agent's credentials (hashed with `sha2`)
  and the in-memory store.
- `config`: parsing of the settings read from the environment.

`app/` is the server itself: configuration from the environment, the sqlite database through
diesel, the actix-web handlers and the websocket actor. It performs the I/O and calls the
library for every decision.
