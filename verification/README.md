# Clawshake

A broker that turns tool manifests into an MCP server for agents, and a bridge
that shares those tools with peers on a peer-to-peer network.

- `src/` is the library: every decision and every format of the broker and the
  bridge, verified with Verus.  A function takes what was read and returns what
  is to be sent, run or stored.  Only two things come from the machine itself:
  whether Node.js is on its search path (`startup::detect_code_mode`), and the
  random identifiers (`ids`).
- `app/` is the program around it: the command line, HTTP and WebSocket
  servers, child processes, the SQLite file of the permissions, file watching
  and the libp2p swarm.
- `tests/` runs the compiled library.

## Reading the library

Each type has a model (`FooView`, or a `Seq`, `Set` or `Map`) that contracts
speak of through `@`.  JSON values are `Json` with the model `JsonView`; texts
are sequences of characters.  Types with an invariant have `wf()`.

Properties that span functions stand as public proof functions named `law_…`
at the end of the module they belong to, for example:

- `permissions`: what `set` grants, `check` sees, and nothing else changes; a
  caller that no rule names is refused; consolidating the rules changes no
  decision.
- `router`: a denied tool is never run.
- `tunnel`: a peer's request reaches the backend only if the rules allow it,
  and the peer gets its own identifier back.
- `event_queue`: a listener that goes on from its cursor misses no event that
  is still in the ring.
- `announce`, `config_text`, `stream`, `codec`, `ipc`: what is written is read
  back.

## What is trusted

Items that rest on code outside the library say so in their doc comments:
`serde_json` and `toml` parsing and printing (`json`, `config`,
`config_text`), the texts of `libp2p` addresses, peer identifiers and keys
(`addr`, `peer_id`), `uuid` (`ids`), `which` (`startup`), and a few text
functions of std (`text`).
