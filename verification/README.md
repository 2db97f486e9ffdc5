# finit

The core of a small Linux init, verified with Verus.

- `src/` is the library. Each module decides and computes; the caller makes
  the system calls and passes their results in as plain values.
  - `uev`: the event-loop context, its I/O watchers, and the event loop
    written as steps (start, after a wait, after dispatching).
  - `fs`: mount-option lists, mount-table queries, and the steps of mounting
    proc, devtmpfs and sysfs.
  - `spawn`: what `waitpid` reported and the exit code of a command.
  - `dir`: which directory entries a listing returns.
  - `gpt`: decoding the GUID partition table header and its entries.
  - `sys`: the `libc` constants and status macros the library relies on.
    Each is trusted, and its contract gives the value `libc` has on Linux.
  - `text`: string helpers.
- `app/` is the program. It makes the system calls (epoll, mount, fork/exec,
  reading `/proc/mounts`) and follows the library's decisions.
- `tests/` runs the library on concrete values.
