# syncmesh

Watch a film together: every peer runs its own mpv, and the peers keep their
players in step over a peer-to-peer mesh. There is no server; a room is shared
by passing on a ticket.

`src/` is the verified library. Everything that decides something is in it, with
its behaviour stated in contracts and proved by Verus:

- `room` is the room as a mathematical state machine, `state` computes it, and
  `room_laws` says what holds of it (who wins a conflict, who may seek, what the
  ready gate waits for).
- `session` is the event loop without its input and output: events go in,
  effects come out. `session_laws` says what holds of it (no echo is broadcast,
  everyone on a roster is dialed once).
- `conflict`, `drift`, `echo`, `ready`, `media`, `rtt`, `collector` are the rules
  that the two are made of. `binary64` and `double` do the double-precision
  arithmetic on integers.
- `wire`, `framing`, `ticket`, `addrs`, `identity`, `link` are what goes over the
  network, `player` is what goes to mpv and comes back, `ui` is keys and text on
  the screen, `config` and `startup` are settings.
- `postcard_values`, `std_text`, `json` and parts of `addrs`, `identity`,
  `ticket`, `time` and `config` call into other crates and the standard library.
  Their contracts are taken on trust; each says in its comment what it claims.

`tests/` runs the library on concrete values, together with the real crates.

`app/` is the program around the library: the command line, files, sockets, the
mpv process and the terminal. Its terminal also needs the crates `ratatui` and
`arboard`, which are left out of Cargo.toml to keep the dependency tree small.
