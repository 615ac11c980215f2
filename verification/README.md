# swini

The verified core of Swini, a workload orchestrator whose cluster state
lives in a raft-replicated key/value store (the Barn).

- `src/` is the library, verified with Verus: the command-line grammar
  and the layout of the crofts table (`cli`), croft and plot records and their wire forms (`croft`, `plot`,
  `node`), croft identities (`ids`), the regent commands' decisions
  (`regent`), and the Barn's state machine, raft log store, key scoping,
  request routing, the node cache and its membership events, and how a
  listing is answered (`store`).
- `app/` is the `swini` program around it: clap's usage and error
  messages, configuration files, the regent process, logging and host
  probing.
- `tests/` exercises the library.
