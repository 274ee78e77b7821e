# fuse_state

The state of a FUSE daemon that serves a remote file system: the cached
directory tree, cached pages, open files and directories, and the state file
that carries them over a restart.

- `src/` is the verified library. Its functions decide; they do no I/O.
  - `dcache`: inodes and the directory tree, with the laws they keep.
  - `pcache`: cached pages, in buffers of `bytes` and maps of `dashmap`.
  - `state`: open handles and `NodeState`, which requests are answered from.
  - `persist` and `record`: the state file, read and written by one grammar.
- `app/` is the daemon around it: locks, the clock, the backing file system,
  replies and the state file on disk.
- `tests/` run the library.

Readers, writers and listings of the backing file system are known to the
library by a number each; `app/` keeps the objects.
