//! Verified core of a small RISC-V kernel: the per-process thread table
//! with its thread syscalls, open flags and the open decision, the
//! buffer logic of on-disk inodes, the address arithmetic of the
//! DMA layer that serves the virtio block device, and the harts that the
//! boot hart wakes.

pub mod thread;
pub mod flags;
pub mod inode;
pub mod hal;
pub mod boot;
