# expose

A protocol-neutral TCP reverse tunnel. A public server accepts raw TCP connections and forwards
their byte streams, in binary frames over one WebSocket, to a client that connects each of them to a
local service. Neither end parses the application protocol.

- `src/` is the library, verified with Verus: the wire format, the flow control, and the decisions
  of both ends as state machines. The programs feed it events and carry out its actions.
  - `bigendian`, `frame`: the wire format.
  - `capacity`, `flow`: windows of credits, and what they do over a connection's life.
  - `reader`, `writer`: the two halves of a relayed connection.
  - `conn_table`, `tunnel`: the relayed connections, and what frames do to them.
  - `client`, `server`: the two ends of the tunnel.
  - `relay`: what a shared tunnel keeps of each connection, and one direction from end to end.
  - `request`, `heartbeat`, `backoff`: telling the tunnel client from visitors, pings, and waits
    between attempts to connect.
- `app/` holds the programs: `expose server --secret-token <TOKEN>` and
  `expose client --server <URL> --upstream <HOST:PORT>`.
- `tests/` runs the library on concrete values.

A proof function whose name starts with `law_` states what the library keeps for every input that
its `requires` admits, over the same spec functions as the contracts.
