# weconn

Stable connection tooling for **SSH port forwarding** and **TCP bridging** (plain TCP or over
WebSocket), with its decisions proved in [Verus](https://github.com/verus-lang/verus).

- **SSH**: OpenSSH-style `-L` / `-R` with automatic reconnect and backoff
- **SSH**: ProxyJump (`-J` or `~/.ssh/config`); the full hop chain is rebuilt on reconnect
- **SSH**: `-L` listeners stay up during reconnect (clients wait up to 120s)
- **SSH**: several `-L` / `-R` / `-J` in one command; reads `~/.ssh/config`
- **Bridge**: TCP→TCP relay, or TCP↔WebSocket (`--to` / `--from`)

## Layout

- `src/` is the library. Verus checks the contracts of its functions, but for four small ones,
  marked `external_body`, that call the `url` and `ssh2-config` crates: their contracts are
  believed, and their comments say what is. The functions whose names start with `law_` state
  what holds of the library as a whole.
  - `cli`, `endpoint`, `ssh_forward`, `error`: what a command line asks for
  - `ssh_config`: how a host is reached
  - `tunnel`, `auth`, `client`: what an SSH session does next
  - `bridge`: who may use a bridge
- `app/` is the program: it opens sockets, talks SSH and WebSocket, and asks the library what to
  do next.
- `tests/` runs the library.
