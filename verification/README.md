# cgroups-rs

Control groups: freezing and thawing their processes, limiting miscellaneous resources, and being
told when their memory runs out. The library is verified with Verus.

- `src/` is the library. It performs no operation on the system. A controller returns a request
  for a file to be read or written, and the request turns what came of it into a result. A
  notification is set up stage by stage, and a watcher or a listener then says what to do next and
  takes the answer.
  - `fs/freezer.rs` and `fs/misc.rs` hold the controllers, `fs/resources.rs` the limits.
  - `fs/events.rs` holds the notifications. `fs/oom_setup.rs` and `fs/oom.rs` serve those of
    version 2, with `fs/oom_laws.rs` for what holds of every run, and `fs/memory_event.rs` serves
    those of version 1.
  - `fs/files.rs`, `fs/text.rs`, `fs/number.rs` and `fs/paths.rs` hold the formats, and
    `fs/inotify.rs` the kernel's notifications.
  - `systemd/dbus/error.rs` holds the errors of the systemd backend.
- `app/` carries the requests out on a running Linux system.
- `tests/` runs the library on files that are kept in memory, and holds its formats against the
  standard library's.
