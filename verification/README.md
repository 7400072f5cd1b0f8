# overterm_codex

Reading Codex conversations from oTerm, verified with Verus.

- `client` decides for a read-only client of a `codex app-server --stdio`
  child: which requests it may make, what an answer means, and which thread it
  is subscribed to. `lifecycle` holds what is true of it over whole runs.
- `rpc` sorts the child's JSON lines, `threads` cuts down what is shown.
- `bus` decides for a client on the desktop app's local bus: who gets a
  response, who is told of a change, and what happens when an owner or the
  router leaves. `wire` is the frame format and the shapes of the messages.
- `mirror` applies the owner's snapshots and patches to a local copy.
- `json`, `table` and `text` are what these stand on. Text becomes a value and
  a value text through `serde_json`.

The library does no I/O: it hands out what to write and takes in what was
read. `app/` runs the child, owns the socket and the threads, and answers the
webview.

What is taken on trust stands beside its call: `serde_json` in `json`, the
random request ids of `uuid` and `Path::join` in `bus`, and two functions of
`String` and `str` in `text`.
