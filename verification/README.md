# monitor_input

A keyboard and mouse monitor: a desktop client records input events, keeps
them in a local SQLite store and uploads them to a server, which keeps users,
sessions and events in MySQL.  Client and server exchange one JSON message per
connection, sealed with a repeating-key XOR cipher and carrying a `length`
field that counts its own digits.

`src/` is the verified library (Verus):

- `cipher`, `protocol`, `length_field`: the wire format, with the proofs that
  opening a sealed message gives it back and that the value chosen for the
  length field counts its own digits.
- `message`, `exchange`: protocol messages as JSON documents (parsed and
  written by the `json` crate): reading a sealed request or reply from the
  bytes received, framing a document with its `length` member (proved to
  equal the byte length of the text sent, given the one-character
  placeholder every request carries), and building and reading the
  documents of every call.
- `server`: the request handlers' decisions (session checks, password
  digests, the statements to run and the reply), with `sql` building every
  statement and `digest` the password digests and identifiers.
- `forms`, `capture`, `keyboard`, `press_table`, `pointer`, `replay`, `task`:
  the client's form checks, how events are recorded, the start/stop task
  state of the operate window, and how recorded events are replayed for the
  event view and the analysis.
- `text`: character-level string operations with their meaning stated.

`app/` holds the programs around it: `monitor server` runs the server, the
bare command the GTK client.  It moves bytes over the sockets, runs the
database statements, draws the windows and computes the floating-point
charts.  The client keeps its local store in `/tmp/DBInit.sql` and
`/tmp/monitor_input_device.db`.
