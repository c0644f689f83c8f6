# ros_kernel

The verified core of a small multi-hart RISC-V teaching kernel.

- `src/thread.rs` — a process's task table and tid allocator, and the
  `thread_create`, `gettid` and `waittid` system calls, with the table's
  invariant (live slots are exactly the allocated tids) and the laws that tie
  the calls together.
- `src/flags.rs` — the flags of `open` and the access they grant.
- `src/inode.rs` — the open decision for the root directory, and the buffer
  logic of reading and writing an opened disk file.
- `src/hal.rs` — address arithmetic of the DMA layer under the virtio block
  driver.
- `src/boot.rs` — the harts the boot hart wakes, and their interrupt masks.
- `app/` — the unverified outer layer: the block device behind a lock and its
  DMA services, the
  disk-file glue, and the locked system-call entry points.
