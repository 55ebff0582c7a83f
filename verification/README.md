# toolbox

Small building blocks for systems tooling, with their rules proved by
Verus.

## Layout

- `src/` — the verified library.
  - `spek` — signal padding, the storage layout of spectrograms and the
    integer geometry of the short-time Fourier transform (frame count,
    frame positions, reconstruction length, size rules).
  - `orc` — the dependency scanner's rules: how a dependency is shown on
    Linux and on Windows, the directories an import is looked for in and in
    which order, which libraries an ELF image or DLLs a PE image imports,
    and which of them the missing-only view shows.
  - `shook` — the webhook runner service: configuration checking and
    resolution, webhook signature checking, the choice of the runner a job
    asks for, and the answers to refused requests.
  - `ttyw` — the browser terminal's message protocol and the decisions of
    a terminal session.
  - `log_line` — the layout of a log line.
- `tests/` — tests of the library on concrete values.
- `app/` — the command-line programs around the library: file, process and
  network I/O, floating-point signal processing (windows, FFT backends,
  the transform itself) and the calls into crates whose work cannot be
  expressed to the verifier.
