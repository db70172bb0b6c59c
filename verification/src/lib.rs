//! An in-memory filesystem core: a single fixed-capacity regular file under a
//! synthetic root directory, together with the driver logic that maps protocol
//! requests (lookup, read, write, create, unlink, ...) onto that file store.
//! Tree and byte-buffer workloads used by the surrounding timing harnesses
//! live here as well, with the same style of contracts.

pub mod bytes;
pub mod fs;
pub mod store;
pub mod tree;
