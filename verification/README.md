# longhorn_agent

Verified core of the Longhorn agent surfaces, written in Verus.

- `src/dispatch/`: the contextual tool-dispatch boundary. A
  `RecordingDispatcher` validates one candidate call against an exact
  registration and trusted binding, hands an admitted call once to the
  consumer's `RecordingCallback`, accepts at most one bounded result through
  the call's `ResultRecorder`, and settles every admitted call exactly once.
  Its contracts are stated over an abstract model of calls, evidence events
  and counters.
- `src/control/`: the agent app-control surface: tool vocabulary and wire
  arguments, the per-instance bearer token, discovery records, pending file
  selections, the listen-cursor and event-resource rules, the origin and
  token guard, and every decision of the stdio carrier (directory
  resolution, instance selection, request headers, SSE framing, reply
  handling).
- `src/bindings/`: the domain-independent text rules of binding and golden
  fixture generation (declaration reading, field maps, label modules,
  drift checks) and the generator's command line. Each domain's renderer
  reads that domain's protocol types and belongs with those types; it is not
  part of this crate.
- `src/text.rs`: string helpers and their specifications.
- `app/`: the `longhorn-agent-control-client` stdio carrier binary: process
  arguments and environment, reading the discovery directory, and the
  tokio/reqwest proxy loop around the library's decisions. The MCP server
  shell (listener, MCP routing, discovery file lifetime) is the host's; its
  decisions (guard verdict, listen ticks, resource routing, event bodies)
  are in `src/control/`.
- `tests/`: scenario tests run against the compiled library.
