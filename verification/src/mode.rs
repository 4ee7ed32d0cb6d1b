//! The mode word of an entry: POSIX permission bits and file-type bits.
//!
//! The low twelve bits are permission and special bits; the bits above them
//! encode the file type as conventionally exclusive ranges.  Construction
//! from raw bits always succeeds: no combination of bits is rejected.

use vstd::prelude::*;

verus! {

/// User executable bit.
pub const USER_EXECUTABLE: u32 = 0o000_001;

/// User writable bit.
pub const USER_WRITABLE: u32 = 0o000_002;

/// User readable bit.
pub const USER_READABLE: u32 = 0o000_004;

/// Group executable bit.
pub const GROUP_EXECUTABLE: u32 = 0o000_010;

/// Group writable bit.
pub const GROUP_WRITABLE: u32 = 0o000_020;

/// Group readable bit.
pub const GROUP_READABLE: u32 = 0o000_040;

/// Executable bit for the other groups.
pub const WORLD_EXECUTABLE: u32 = 0o000_100;

/// Writable bit for the other groups.
pub const WORLD_WRITABLE: u32 = 0o000_200;

/// Readable bit for the other groups.
pub const WORLD_READABLE: u32 = 0o000_400;

/// Sticky bit.
pub const STICKY: u32 = 0o001_000;

/// SGID bit.
pub const SGID: u32 = 0o002_000;

/// SUID bit.
pub const SUID: u32 = 0o004_000;

/// Named pipe or FIFO.
pub const NAMED_PIPE_FIFO: u32 = 0o010_000;

/// Character special device.
pub const CHARACTER_SPECIAL_DEVICE: u32 = 0o020_000;

/// Directory.
pub const DIRECTORY: u32 = 0o040_000;

/// Block special device.
pub const BLOCK_SPECIAL_DEVICE: u32 = 0o060_000;

/// Regular file.
pub const REGULAR_FILE: u32 = 0o100_000;

/// Symbolik link.
pub const SYMBOLIK_LINK: u32 = 0o120_000;

/// Socket.
pub const SOCKET: u32 = 0o140_000;

/// File information: a fixed-width set of permission and file-type bits.
#[derive(Copy, Clone, Debug, PartialEq, Eq, PartialOrd, Ord, Structural, Hash)]
pub struct Mode {
    bits: u32,
}

impl Mode {
    /// The raw bits of the mode word.
    pub closed spec fn spec_bits(self) -> u32 {
        self.bits
    }

    /// True when every bit of `bits` is set in this mode word.
    pub open spec fn spec_contains(self, bits: u32) -> bool {
        self.spec_bits() & bits == bits
    }

    /// Builds a mode word from raw bits.  Every bit pattern is accepted, so
    /// the result is always `Some`.
    pub fn from_bits(bits: u32) -> (r: Option<Mode>)
        ensures
            r matches Some(m) && m.spec_bits() == bits,
    {
        Some(Mode { bits })
    }

    /// The raw bits of the mode word.
    pub fn bits(&self) -> (r: u32)
        ensures
            r == self.spec_bits(),
    {
        self.bits
    }

    /// True when every bit of `bits` is set in this mode word.
    pub fn contains(&self, bits: u32) -> (r: bool)
        ensures
            r == self.spec_contains(bits),
    {
        self.bits & bits == bits
    }
}

} // verus!
