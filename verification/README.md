# engram-dashboard-daemon

The decisions of the engram dashboard daemon's control plane, verified with Verus: how a
command round trip is seated, answered and cleaned up (on the asking side and on the owner's),
which owner token each attached connection holds and where its frames go (the table of command
names itself lives in a workspace crate outside this library), who may type into an agent's terminal and what size that terminal takes, how a send's
recipients and reply contract are checked and answered, how a bearer credential and its session
are admitted, and how the command catalog is listed and called.

Layout:

- `src/` — the verified library, one module per concern (`seats` and `delivery` for round
  trips, `roster` for attached connections and their owner tokens, `multiview` for viewports and input leases, `ingress` for
  sends and queries, `routes` for the HTTP entrances, `catalog`, `agent`, `commands` and `hook`
  for the control routes, `connection` for per-connection decisions, `text` for the string
  helpers every answer is built from). Laws are public proof functions beside the operations they
  relate.
- `tests/` — the library run on concrete values.
- `app/` — what stays outside the proofs: serde readers and writers for the request bodies and
  answers, the HTTP status of a stopped request, the spawn files on disk, one command round
  trip as a connection task runs it, and the deadline sweep of round trips.

Not in this library: the daemon's own workspace crates (the agent manager, the command-name
registry, the messaging service, the network layer and the wire protocol) are not part of this
project. So the frame dispatch loop, the MCP server and its tool handlers, the name-to-owner
lookup of a delivery and the messaging calls are not here; the decisions they make are (for
example `stop_daemon_step`, `hand_over_verdict`, `admit_send`, `message_report`), and `app/`
wires those that need only outside crates that are available.
