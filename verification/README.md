# line_relay

A line relay over TCP. Peers that connect to the listener send newline-ended
lines; every line is broadcast to each client registered in the relay, and the
upstream peer is registered as one such client over a channel of eight lines.
Lines from the upstream peer are printed; when the upstream link ends or
cannot be made, it is connected again.

- `src/line_codec.rs`: the wire format (newline-ended UTF-8 lines), with the
  proof that a written line is read back whole.
- `src/clients.rs`: the registry of clients and the broadcast plan.
- `src/link.rs`: what each event on the upstream link leads to.
- `src/buffer.rs`: a sink that holds lines back until declared ready.
- `src/channel.rs`: the channel types of `futures` and the calls into them.
- `app/main.rs`: sockets, the reactor and the printing.
