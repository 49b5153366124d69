# maic-desktop

The desktop shell of MAIC: a Tauri app that ships a bundled Next.js server and a
Node.js sidecar, serves the one with the other on a loopback port, and shows it
in a window.

- `src/` is the library. It holds what the shell decides and what it says:
  which port to serve on, whether a server tree can boot, when to extract it
  anew, whether a staged sidecar can be trusted, when to give up on a server,
  and the scripts and reports that the user sees. It is verified with Verus,
  down to a trusted edge: what `serde_json` makes of a JSON text, and
  `String::push`, `String::from_utf8` and `String::from_utf8_lossy` of the
  standard library. The contracts of these are believed, not proved.
- `app/` is the shell itself: windows, files, processes, and sockets. It carries
  out the steps that the library names and reports how they went.
- `tests/` runs the library.

A flow that alternates decisions with work on the machine is a struct with a
`step`. The shell carries the step out, hands a reply to `answer`, and gets the
next step. `result` tells what the flow has come to. Each module states what its
flow comes to on every machine it may meet, for example `lemma_port_rule` in
`src/port.rs` or `lemma_start_rule` in `src/boot.rs`.
