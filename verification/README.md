# nico_api

The live log stream behind the admin log viewer, verified with Verus, and the rule that
tells DHCP-managed addresses from static ones.

- `src/layer.rs` turns traced events and closing spans into log lines.
- `src/stream.rs` retains the most recent lines for replay and broadcasts each line.
- `src/logs.rs` answers a viewer that opens the stream of a log source.
- `src/fields.rs` and `src/text.rs` hold the ordered fields of a line and how values are
  written.
- `src/channel.rs` and `src/clock.rs` state what is relied on of `tokio`, `chrono` and the
  clocks of std.
- `src/allocation_type.rs` derives how an address was allocated from how it was chosen.

`app/` is the ordinary Rust around the library: the `tracing` layer, the handle that
threads share, the HTTP handlers and the serialized forms.
