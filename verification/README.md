# palmier_pro_windows

The backend of the Palmier Pro video editor as a verified library: an
in-memory timeline (tracks, clips, media assets, folders, an undo stack),
the 31 tools that an MCP client calls on it, the static AI model catalog,
and the JSON-RPC / MCP shapes the server speaks.

Layout:

- `src/` — the library, verified with Verus. `model` holds the editor
  state and its views; `edit` and `ripple` the timeline editing primitives;
  `tools/` one module per tool family plus `dispatch`, which routes a
  `tools/call` by name, and `listing`, the `tools/list` answer with every
  tool's input schema; `export` the compact `get_timeline` document;
  `catalog` the model catalog; `reals` and `int_float` the float encodings
  the tools compare and the doubles that JSON integers become; `mcp` and `protocol` the server's decisions
  and message shapes; `laws` the properties that relate several operations
  (undo after an edit, clearing a region, distinct minted ids).
- `tests/` — behaviour tests run against the compiled library.
- `app/` — the HTTP server (axum), the serde copies of the wire types and
  the JSON conversions, and the floating-point steps whose results the
  tools take as plain integers (default clip lengths, clip lengths rescaled
  to a new speed).
