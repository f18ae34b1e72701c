//! Fault injection for the filesystem I/O of a running process.
//!
//! The library holds the verified core: the injector chain (fault, latency,
//! attribute override) with its filters, the hook filesystem's inode and
//! handle bookkeeping, the descriptor replacement plan, and the mount
//! lifecycle decisions. The surrounding process — FUSE session, ptrace,
//! signal handling — lives outside and consults these functions.

pub mod attr;
pub mod duration;
pub mod filter;
pub mod hookfs;
pub mod injector;
pub mod mount;
pub mod multi_injector;
pub mod prng;
pub mod replacer;
pub mod reply;
pub mod tracer;
