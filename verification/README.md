# SystemBooster

Frees a Windows computer for one job: suspends the processes and pauses or stops
the services that a profile allows, and puts everything back afterwards. Each
change is recorded on disk before it is made, so that a crash in the middle of a
boost is fully recoverable.

- `src/` is the verified library. It decides: what may be touched
  (`classify`, `scan`), how a boost is applied and undone (`engine`, with its
  mathematical model in `model`), what is recorded (`session`, `store`), how a
  request is met (`host`, `ipc`), and what the Windows backends do with what the
  system tells them (`win32`). It is a state machine that asks its host for one
  action at a time and takes the reply.
- What the library guarantees as a whole is stated and proved in `safety`,
  `completeness`, `recovery` and `runs`.
- `app/` is the host: it performs the actions, on files, pipes, processes and
  services, and holds the JSON forms of the library's types.
- `tests/` runs the library on a system in memory.

The library trusts five things that it did not prove: `str::to_lowercase`,
`String::from_utf16_lossy`, the system clock, `uuid::Uuid::new_v4`, and that
`std::path::PathBuf` is carried through unread. Each stands behind one function or
declaration whose comment says what is claimed of it.
