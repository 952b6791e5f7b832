# vrpn

A verified core for the VRPN (Virtual-Reality Peripheral Network) wire
protocol: message framing, the magic cookie handshake, the system messages
that describe senders and message types, ID translation between peers, and
dispatch of received messages to handlers.

## Layout

- `src/` — the library, checked by Verus. Every public function states its
  result in its contract, up to what the user-supplied handlers and
  endpoints answer; the laws that relate several functions (what a
  parse gives back of a write, what a lookup gives after a registration, and
  so on) are public proof functions beside the code they speak of.
  - `wire`, `encoding`, `byte_buffer`: the buffering traits, big-endian
    integers, and the calls into `bytes`.
  - `cookie`, `constants`, `time`, `types`, `text`: the handshake cookie and
    the basic values carried in messages.
  - `message`, `codec`, `stream`, `length_prefixed`, `descriptions`, `log`,
    `system`, `tracker`: message bodies, headers and framing, and the
    decoding of a byte stream into messages.
  - `translation_table`, `type_dispatcher`, `endpoint`: mapping the peer's
    IDs to local ones and calling the handlers registered for a message.
  - `connect`, `connection`: connection set-up and connection status as
    state machines that take events and return actions.
- `app/` — sockets, async I/O and the loops that drive the state machines
  of the library (built with `tokio` and `socket2`).
- `tests/` — tests of the library on concrete values.
