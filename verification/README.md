# containerd-manager

A Rust library for managing containerd (containers, tasks, images, snapshots)
over its Unix socket, with its logic verified in [Verus].

- `src/` is the verified library. What containerd, the file system and the clock
  bring back goes in as plain values; what to ask for next, and what to make of
  it, comes out. Operations that take several calls (create, start, stop, delete,
  exec, clone, snapshot, restore, reset, following logs) are state machines whose
  phases say which call is due.
- `app/` makes the calls: gRPC, files, sockets, sleeping. It runs the state
  machines, and hands what one call brought back to the next.
- `tests/` runs the library.

## Modules

| Module | What it decides |
|---|---|
| `connect` | which socket to dial, and what a failed dial means |
| `client` | namespaces, caches, the exit watcher |
| `handles` | the forwards and tailers that are kept running |
| `util`, `types`, `error`, `consts` | identifiers, ids, errors and their texts, labels |
| `image`, `container`, `oci`, `json` | manifests, image configurations, runtime specs |
| `metadata` | which blobs of an image to read, and what they say |
| `bridge` | bridge addresses, veth names, hook scripts |
| `create` | the record of a new container, and the steps that lead to it |
| `task` | start, stop, delete, pause; requests, waits and retries |
| `exec` | running a command in a task |
| `inspect`, `list` | what is shown of containers |
| `records`, `log_tailer`, `logs` | the record format of `events.log`, its writer, its readers |
| `port_forward`, `readiness` | port bindings and forwards; readiness and health |
| `clone`, `snapshot`, `snapshot_util` | copy-on-write clones, named snapshots, restore and reset |
| `outside` | functions of other crates, with what the library relies on |
| `maps`, `numeral`, `paths`, `text`, `time` | strings, maps, numbers and times with their models |

Public proof functions whose names begin with `law_` state what holds across
functions: that records are read back as they were written, that a follower
delivers a growing file once, that a failed operation removes nothing but what it
made, and so on.

[Verus]: https://github.com/verus-lang/verus
