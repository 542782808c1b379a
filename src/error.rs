use vstd::prelude::*;

verus! {

/// Why a probe-record section, or the artifact holding it, could not be decoded.
#[derive(Debug, Clone, Copy, PartialEq, Eq, Structural)]
pub enum Error {
    /// The bytes are neither an ELF nor a Mach-O image, or their tables are corrupt.
    InvalidFile,
    /// A record ends before its fixed header or one of its strings does.
    TruncatedRecord,
    /// A record's name or argument description is not valid UTF-8.
    InvalidUtf8,
    /// A record's address lies below the anchor address of its probe.
    AddressOrderingViolation,
}

} // verus!
