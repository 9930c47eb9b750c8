//! A read-only block filesystem: its on-disk layout, the codecs of its
//! records, the engine that answers queries against a mounted volume, and the
//! planner that lays out a fresh volume.

pub mod arith;
pub mod bytes;
pub mod error;
pub mod superblock;
pub mod inode;
pub mod dir;
pub mod volume;
pub mod mkfs;
pub mod adapter;
