# libhi

A UDP server for Open Sound Control (OSC), with a C interface.

`src/` is the library, verified with Verus:

- `osc_type.rs`: argument values (floating-point values are held as their
  bit patterns), type tags, and the coercion of received arguments to the
  types a handler expects.
- `address.rs`: OSC addresses and address patterns, validated and matched by
  the `rosc` crate.
- `registry.rs`: the registered handlers, and the plan of which handlers a
  received datagram or packet runs, with which arguments.
- `datagram.rs`: decoding a received datagram, by the `rosc` crate, into the
  library's packet values.
- `message.rs`: messages, packets, socket addresses, and the answer a handler
  prepares for the sender of a request.
- `serve_loop.rs`: what the server thread does after each read of its socket.
- `version.rs`, `text.rs`: the library version and the text handling it needs.
- `capi.rs`: the result codes of the C interface and the outcome of
  registering a handler through it.

`app/` holds what runs around it: the socket, the lock and the thread of the
server, the user callbacks, the conversion of the library's values to
`rosc`'s types for sending (encoding and the floating-point casts of
coercion happen there, as they need floating-point values), the C interface,
and the command-line program.
