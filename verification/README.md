# buzz

The rules of the Buzz desktop app that do not need a desktop, written in Verus:
executable Rust whose behaviour is stated in contracts and proved.

- `src/render_recovery`: how a launch recovers from a renderer that will not
  start. The rules are state machines: a task waits with one request (take the
  lock, write the record, ask the bus, spawn a child), its host carries the
  request out and hands back the reply. Every turn is fixed by a contract, and
  the laws in `laws`, `run` and `contention` hold for every sequence of replies
  and every interleaving of processes.
- `src/voice`: how text is prepared for the Pocket TTS engine.
- `app`: the host. Files, D-Bus, processes, Tauri and WebKitGTK.
- `tests`: the library against a host in memory.
