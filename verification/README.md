# crableton

An MCP server for Ableton Live. A Python Remote Script inside Live exposes its
object model over a TCP socket; this crate is the server that drives it.

- `src/` is the library, verified with Verus: the JSON values the server
  handles, the tool catalogue and argument checking, batch expansion and call
  routing, the client's reply, retry, pooling and caching decisions, the
  configuration, the installer's decisions (script version, Live folder order,
  `Library.cfg`), the bundled reference lookups, and the whole-number parts of
  the musical analysis (sections, transitions, chord and note names).
- `app/` is the program around it: the command line, the MCP transport, the
  socket and clock, the file system, and the floating-point analyses.
- `tests/` exercises the library.
