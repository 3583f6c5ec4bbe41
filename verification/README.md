# wl

The client side of the Wayland wire protocol, verified with Verus.

- `src/wire.rs`: how arguments are written and read (words, fixed-point
  numbers, strings, arrays, file descriptors), the `Ser`/`Dsr` traits with
  their specifications, and the `Codec` round-trip lemma.
- `src/objects.rs`: object references, new ids, interfaces named at run time,
  and the `Object`, `Msg`, `Request`, `Event` traits.
- `src/client.rs`: the protocol state of a connection: message framing,
  object ids, the queues of received descriptors, and the hand-off of a
  received message to the handler of its event (`RecvState::on`).
- `src/pixbuf.rs`: the shared-memory pixel buffer: the requests that make it,
  its lock and pixel addressing.
- `src/<interface>.rs` with `request.rs` and `event.rs` beside it: the
  messages, enumerations and flag sets of the core, xdg-shell and
  wlr-layer-shell protocols.
- `app/`: the socket I/O (through `libc`), shared memory, and an example client.
