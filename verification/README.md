# Ferrous

A verified library for a capability-scoped terminal harness and a model
catalog, with the program around it.

- `src/` is the library. Everything in it is checked by Verus: the typed shell
  plans and their digests, the lexer and parser, sessions, builtins and
  commands as steps that ask the host for one thing at a time, pipelines, the
  action broker and its leases, the network and environment policy, the web
  terminal's protocol decisions, and the catalog with its sources.
- `tests/` runs the library on a filesystem in memory.
- `app/` is the program: it performs what the library asks for (files,
  processes, WASI components, HTTP, WebSockets) and hands back the answers.

Prices and scores are IEEE 754 bits in `src/`; arithmetic on them is done in
`app/`.
