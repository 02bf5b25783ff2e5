# rcargo

Run cargo on a remote host and stream the output back. The crate is a
verified library (`src/`, checked with Verus) and a thin program around it
(`app/`) that does the I/O: SSH, rsync, the file system, the network proxy
and the kernel sandbox.

Library modules:

- `protocol`, `wire` — the text messages between client and shim and their
  length-prefixed framing; `protocol_laws` proves that they read back.
- `config`, `cli`, `plan` — the configuration, the command line, and what a
  subcommand stands for.
- `sandbox`, `remote`, `ssh` — the remote command lines, shell quoting and the
  terminal-output filter.
- `client`, `sync_session`, `bootstrap` — the client's side of a shim session,
  and the installation of the shim.
- `shim`, `session`, `confine`, `proxy` — the shim: path checks, the message
  state machine, file transfer, sandbox plans, and the filtering proxy;
  `balance` proves that the Seatbelt profile's parentheses balance.
- `text`, `num`, `ext` — text and number helpers, and the calls into std and
  outside crates whose behaviour is taken on trust.
