use vstd::prelude::*;

verus! {

/// Errors reported by the store.
#[derive(Debug, Clone, Copy, PartialEq, Eq, Structural)]
pub enum Error {
    /// The partition offset is not a multiple of the flash sector size.
    InvalidPartitionOffset,
    /// The partition size is not a multiple of the flash sector size,
    /// or it holds more sectors than a `u16` can count.
    InvalidPartitionSize,
    /// The flash reported an error; the store refuses further writes.
    FlashError,
    /// The key is not NUL terminated.
    KeyMalformed,
    /// The namespace name is not NUL terminated.
    NamespaceMalformed,
    /// No namespace of that name exists.
    NamespaceNotFound,
    /// No item of that key exists in the namespace.
    KeyNotFound,
}

} // verus!
