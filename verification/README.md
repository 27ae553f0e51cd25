# oxydra

A verified library for running an AI agent in a sandbox, and an ordinary program
around it.

- `src/` is the library. Its functions state in contracts what they do, and Verus proves
  the contracts. It builds the requests that the model services take and reads
  their answers, whole or as a stream of server-sent events; it decides how a
  user's session is started, guarded, inspected and taken down; it parses the
  command line and the control frames; it decides which skills count and how they read
  in the prompt; it resolves configuration, environment, workspaces and mounts.
- `tests/` runs the library on concrete values.
- `app/` is the runner program: files, processes, sockets, Docker, HTTP and the
  JSON and TOML shapes. It performs what the library decides and hands back what
  happened.

Where the work of an outside crate is needed in the middle of the library's logic
(parsing JSON text, Base64, semantic versions, command lines, TOML documents), the
call stands in a small function whose contract is believed without proof. Each
says in its comment which function it calls and what is claimed of it. The shared
places for these are `src/json.rs`, `src/encoding.rs`, `src/arguments.rs`,
`src/migration.rs`, `src/update_check.rs`, `src/clock.rs`, `src/text.rs`,
`src/retry.rs` and `src/bootstrap.rs`.

Functions whose names start with `law_` are proofs about the library as a whole:
what two calls have to do with each other, what every operation keeps, what ends.
