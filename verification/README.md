# hermes_launcher

The logic of a small desktop launcher that reaches two web services (a
dashboard and a web UI) on a remote server: it connects over SSH, checks each
service's health, starts it only when it is down, opens a local port-forward
tunnel and points the browser at it. Everything that decides something is in
`src/`, verified with Verus; `app/` performs the I/O.

## src/ (verified)

- `config.rs` — the settings and their defaults, service lookup by name, the
  authentication method, and the pinned host keys (`host:port` → fingerprint)
  with the law that what is saved for a host is what is loaded back.
- `keychain.rs` — the SSH password in the OS keychain (through `keyring`).
- `ssh.rs` — trust-on-first-use host-key decisions, the authentication plan and
  the connection error messages.
- `output.rs` — a remote command's output cut into lines as it streams in,
  losing nothing.
- `redact.rs` — masking of `KEY=VALUE` and `--flag VALUE` secrets in log lines,
  with its laws (idempotent, token for token, secrets hidden, harmless lines
  unchanged).
- `launch.rs`, `run.rs`, `names.rs` — the launcher's bookkeeping (one launch per
  service at a time, tunnels and start commands per service) and the launch of
  one service as a state machine, with its laws (the start command runs only
  when the service is down, at most once; at most 20 health polls; success only
  after the browser was sent to an open tunnel).
- `tunnel.rs`, `text.rs` — messages and text helpers.

## app/

Settings and known hosts on disk (serde, `dirs`), the russh connection and
tunnels (tokio), and the commands of the desktop front end, which run the
library's launch state machine.
