# luhproc

A lightweight background process manager. Workers are identified by an
environment variable (for example `MY_TASK=1`) and run in background mode when
the same binary is started again with that variable set.

## Layout

- `src/` is the verified library.
  - `radix.rs` writes numbers in base 36 (directory hashes) and in decimal
    (pid files). Its proofs show that the text reads back as the number and
    that distinct numbers get distinct texts.
  - `pid.rs` reads a pid file back: it trims Unicode white space and parses a
    `u32`. What `render_pid` writes parses back to the same pid.
  - `task.rs` is `ChildTask` and the names derived from it: the base name
    (`MY_TASK` becomes `my-task`) and the instance directory (`my-task-` plus
    twelve base-36 digits of the hash of the id, zero-padded when shorter).
  - `manager.rs` is `ProcessManager`: the task registry, the lookup by name,
    the trigger check, and the entry points that set out `start`, `info` and
    `stop`.
  - `control.rs`, `start.rs`, `info.rs` and `stop.rs` hold the procedures.
    Each one asks its caller for one effect on the machine at a time (create
    a directory, spawn, signal, ...) and decides what comes next from the
    reply. Each procedure has a specification function for its transitions
    and proved laws about whole runs: termination, no spawn over a running
    instance, cleanup after a stop, and a sweep that visits every instance
    directory of the task and no directory of another task.
  - `world.rs` models the temporary directory and states what several calls
    do together: a second start of a running instance is refused, and after a
    stop the instance is no longer running and can be started again.
  - `error.rs` is `ManagerError`.
- `app/` carries out the effects with the file system, `std::process`, `nix`
  signals, `luhlog` logging and `luhtwin` errors, and offers the manager's API
  (`ProcessManager::new/check/start/info/stop`, `process_manager!`).
- `tests/` runs the library on concrete values.
