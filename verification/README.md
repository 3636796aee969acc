# ffg

A Go version manager: `ffg ls`, `ffg ls-remote`, `ffg use 1.21.0`, `ffg ins 1.21.0`,
`ffg rm 1.21.0`. `FFG_HOME` (default `~/.ffg`) holds downloaded archives and installed
versions under `packages/`, and the link `go` to the version in use; `FFG_MIRROR`
(default `https://go.dev`) is where releases are fetched from.

Layout:

- `src/` — the verified core (Verus): text operations (`text`), platform and archive
  names (`platform`), the release list read from a download page (`release`), mirror
  URLs (`mirror`), the home directory (`preset`), archive checksums (`checksum`), archive entry paths (`archive`),
  the decisions of the commands and the home layout (`commands`), and the laws that
  hold across them (`laws`).
- `app/` — the command-line program: argument parsing, the network, the file system,
  progress bars and unpacking, driven by the decisions of `src/`.
- `tests/` — tests of the library on concrete values.
