# canmore

Temporary visual "medium" surfaces for a coding assistant: decision boards,
diagrams, comparison grids and image direction boards that collect structured
feedback and stay disposable until promoted to project material.

- `src/` is the library, verified with Verus: the surface lifecycle, compact
  summaries, listing order, HTML rendering and escaping, image recognition and
  hashing, storage paths, the routing decisions of the HTTP server, and the
  JSON-RPC (MCP) server's answer to each line, from its text (parsed with
  `serde_json`) to the reply or to the tool call and its reply.
- `app/` is the `canmored` program around it: reading stdin and writing
  replies, the live HTTP server's sockets and threads, file storage, and the
  serde forms of the library's types.
- `tests/` runs the library on concrete values.
