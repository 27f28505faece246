# jcode desktop core

The verified core of the jcode desktop client and of the bridge that
maps between the harness API and the daemon's own protocol.

- `src/` is the library, verified with Verus. `transcript` keeps the
  conversation (streaming, the live tool card, the waiting queue, delivery
  marks), `edits` turns edit-tool output into cards, `caret` and `hints` are
  the composer's small state, `scene` fits captions, `table` and `ink` lay out
  table rows and diff ink, `harness` decides what the desktop's connection
  worker does with each event and command, and `bridge` maps requests
  and daemon events. `transcript_laws` and `bridge_laws` state and prove what
  holds across calls. `json` is the JSON value the bridge reads and writes.
- `tests/` exercises the library on concrete values.
- `app/` is the unverified shell: serde wire types and the conversion to and
  from the library's JSON, the disk and directory lookups the bridge is
  handed, and the floating-point scroll easing.
