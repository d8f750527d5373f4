# HardLight

A realtime, low-latency, encrypted RPC binary protocol using WebSockets.

A client connects to a server over TLS, agrees with it on the protocol's major version, and
calls functions on it. Each connection has a state of its own: what a function changes in it
is sent to the client, whose copy follows the server's.

The crate is verified with Verus. `src/` is what the two sides decide and compute, each
function with its contract:

- `wire`, `calls`: the messages, and the IDs by which responses find their calls;
- `client_loop`, `server_loop`, `topic`: what each side does on an event, as a function from
  a state and an event to the next state and an action;
- `session`: a client and a server together; every request is handled, and every response
  finds its call;
- `delivery`: a connection and its subscriptions; every event is taken up to send, for every
  subscriber, once and in order;
- `version`, `client`, `server`: the handshake and the configuration of both sides;
- `state`: which changes are sent, and that applying them brings a copy up to date;
- `application`: what an application holds of a running client and server, and which methods
  a connection may call;
- `naming`, `expansion`: what a service's trait expands to;
- `service`: a call of a service from end to end; it gives what its method gives;
- `codec`, `compression`, `pem`, `text`, `bytes`: the pieces these are made of;
- `counter`: a service that counts.

`app/` is the program around it: sockets, TLS, tasks and channels, rkyv's derives for the
messages, the tokens that the attributes expand to, a demonstration of the counter service,
and a benchmark of an HTTPS server for comparison. `tests/` runs the library.
