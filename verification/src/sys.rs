//! Error types of the system interface.
//!
//! The raw system calls themselves live in the unverified runtime around
//! this library; the library only decides what to do with their results.

use vstd::prelude::*;

verus! {

/// The error number `open` reports for a missing file.
pub const ENOENT: u32 = 2;

/// An error reported by a system call, as the loader classifies it.
#[derive(Debug, PartialEq, Eq, Structural, Clone, Copy)]
pub enum Error {
    /// The kernel returned this `errno` value.
    Posix(u32),
    /// A path was too long for the fixed conversion buffer.
    PathTooLong,
    /// Anything else.
    Unknown,
}

/// A condition on which the loader must give up: control cannot be
/// transferred safely.  The runtime turns this into a fatal message on
/// standard error followed by `abort`.
#[derive(Debug, PartialEq, Eq, Structural, Clone, Copy)]
pub enum Fatal {
    /// The initial stack does not have the expected layout.
    StackMismatch,
    /// An environment slot does not hold a well-formed C string.
    BadEnvString,
    /// The aux vector has no terminator within the stack span.
    AuxvTruncated,
    /// `AT_PAGESZ` is missing from the aux vector.
    NoPagesz,
    /// A second extra environment entry was requested.
    ExtraEnvTaken,
    /// `AT_PHDR`, `AT_PHENT` or `AT_PHNUM` is missing or null.
    NoAtPhdr,
    /// The file is not an ELF.
    NotElf,
    /// `DT_RELAENT` has an unsupported size.
    RelaEntSize,
    /// `DT_RELENT` has an unsupported size.
    RelEntSize,
    /// A relocation is not of the architecture's relative type.
    BadRelocType,
    /// A relocation points outside the image.
    RelocOutOfBounds,
    /// The program headers name no dynamic section.
    NoDynamic,
}

impl Fatal {
    /// The message that accompanies this condition on standard error.
    pub fn message(&self) -> &'static str {
        match self {
            Fatal::StackMismatch => "Stack layout different from expected",
            Fatal::BadEnvString => "Bad environment string",
            Fatal::AuxvTruncated => "Aux vector has no terminator",
            Fatal::NoPagesz => "AT_PAGESZ must exist",
            Fatal::ExtraEnvTaken => "Only one extra environment entry is supported",
            Fatal::NoAtPhdr => "AT_PHDR, AT_PHENT, AT_PHNUM must exist",
            Fatal::NotElf => "We are not an ELF ourselves",
            Fatal::RelaEntSize => "DT_RELAENT has unsupported size",
            Fatal::RelEntSize => "DT_RELENT has unsupported size",
            Fatal::BadRelocType => "Unsupported relocation type",
            Fatal::RelocOutOfBounds => "Relocation outside the image",
            Fatal::NoDynamic => "No dynamic section in own executable",
        }
    }
}

} // verus!
