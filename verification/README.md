# csi-webserver-core

Control core of a server that bridges ESP32 boards, running the `esp-csi-cli-rs`
firmware, to HTTP and WebSocket clients. What the server decides is written in Verus:
executable Rust whose behaviour is stated in `requires` / `ensures` contracts and proved.

| Directory | What it holds |
|-----------|---------------|
| `src/`    | the verified library: commands, the info exchange, recovery, the connection, port discovery, the device registry, the routes |
| `tests/`  | its tests, on concrete values |
| `app/`    | ordinary Rust around it: serial ports, channels, timers, the HTTP listener, JSON bodies |

The library performs no I/O. The tasks in `app/` own the ports, the channels and the
clock; they hand each event in and carry out what comes back:

- `serial::link::Link` is one open connection. A read, a command, an info request, a
  change of settings or a tick of the clock is one method call.
- `serial::exchange` drives the `info` exchange and the draining of a stale stream.
- `supervisor::Supervisor` turns the scans of the serial ports into devices that are
  attached, followed to another port, or detached.

Each module ends with its laws: public proof functions that state what holds across
functions. A doc comment gives each law in words.

What is believed without proof is marked and documented where it stands: what
`serde_json` makes of a JSON text (`flags`), what `String::from_utf8_lossy` makes of
bytes (`serial::info`), `String::push` (`text`), and the existence of tokio's
cancellation tokens (`state`).
