# barista-cli

The command line of `barista`, a JVM build tool that stands in for `mvn`.

`src/` is the verified library. It decides; it does not touch files, sockets or processes.

- `cli`, `project`, `facts`, `paths`: the command line, the project root, and what is known of
  the file system.
- `cmd`: one module for each command. A command that alternates work and decisions is a function
  from what came back so far to what is needed next.
- `action_graph`, `cmd::reactor`, `cmd::schedule`: what is run for a phase, in which order the
  modules of a project are built, and how many of them at a time.
- `daemon`: how the build daemon is found, started and started anew.
- `lockfile`, `digest`, `calendar`, `text`: lockfiles, digests, timestamps and texts.
- `output`: reports, renderers and progress sinks.

`app/` is the program: arguments, files, sockets, processes, and the calls into the crates beside
this one. `tests/` holds the tests.

The contracts rest on a few calls that are taken at their word: `sha2` for digests, `serde_json`
for JSON strings, `String::push`, and the `Debug` form of strings and paths. Each is stated in one
place, whose comment says what is assumed of it.
