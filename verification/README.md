# ipc_server

The server side of an inter-process communication protocol, with contracts that
Verus proves.

A server serves *ports*, on which clients ask for sessions, and *sessions*, on
which they send requests. A session can be made a *domain*: then more than one
object is reached through it, each by an id. An *interposer* serves the sessions
of another service and can leave requests to it.

## Layout

- `src/buffer.rs`, `src/array.rs`, `src/values.rs`: values and arrays in the IPC buffer.
- `src/headers.rs`, `src/message.rs`: the headers of messages, and their outline.
- `src/context.rs`, `src/commands.rs`, `src/client.rs`: what is known of a command;
  reading requests, and writing responses and commands.
- `src/ready.rs`: whether a message can be read, and whether there is room for a
  response.
- `src/params.rs`, `src/sf.rs`, `src/sm.rs`: parameters of commands, what a server
  object is, and service names.
- `src/holder.rs`, `src/holders.rs`, `src/domain.rs`, `src/tables.rs`: what is served,
  lists of it, domains, and the tables of domains that holders share.
- `src/hipc.rs`: the control commands of a session.
- `src/manager.rs`: the server manager.
- `src/exchange.rs`: serving a signaled handle, step by step.
- `src/release.rs`: releasing holders that are gone, step by step.
- `src/wire_laws.rs`, `src/server_laws.rs`: what holds of all that together. Laws of
  domain tables stand in `src/domain.rs`.
- `app/`: runs a server on a system that implements `System`.

The library does no I/O. Serving a handle gives an action to do, such as receiving
a message or calling a command of an object; what came of it is reported with the
method for that action, which gives the next one. Objects and the functions that
make them are known to the library by keys only.

Holders that are gone are handed out, to be closed in order; a holder closes what
it holds if it is the last one of its object, and lets its domain go if it is the
last one that has it.
