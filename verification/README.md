# bun_filter

Filters for the output of [Bun](https://bun.sh): `bun test`, `bun install`, `bun build`
and `bun run`. Each cuts the output down to what a reader needs, and says so where
something is left out.

- `src/` is the library, verified with Verus.
  - `text`, `lines`, `ansi`: characters, lines and escape sequences.
  - `patterns`: the shapes of Bun's lines, matched by the `regex` crate. This module and
    the contract of `String::push` in `text` are what the proofs rest on.
  - `kinds`: noted lines, sorted by what they are.
  - `report`, `listing`, `limits`: how kept lines become one text, and how much is shown.
  - `bun_test`, `bun_install`, `bun_build`, `bun_run`: the filters.
  - `test_laws`: what the filter of `bun test` promises of every output.
  - `command`: the command lines that produce the output.
- `app/` runs Bun, writes the files that hold what a report leaves out, and prints.
- `tests/` runs the library.
