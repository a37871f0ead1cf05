use vstd::prelude::*;

verus! {

/// Failure of a save operation.
///
/// A save aborts as a whole: no partial chunk is ever produced once one of
/// these is reported.
#[derive(Debug, Clone, Copy, PartialEq, Eq, Structural)]
pub enum SaveError {
    /// The encoded record stream grew past the hard ceiling; carries the
    /// exact cumulative byte count at the moment of the breach.
    SizeLimit(u64),
    /// A live reference was not found in the directory built for this save:
    /// a dangling or out-of-pool reference, never silently coerced to null.
    InvalidPointer,
    /// An image's graphics reference lies outside the graphics table.
    InvalidGrpPointer,
    /// A remap-palette reference lies outside the palette table.
    InvalidRemapPalette,
}

/// Failure of a load operation.
///
/// A load aborts as a whole: no partially decoded entity set is ever
/// installed once one of these is reported.
#[derive(Debug, Clone, Copy, PartialEq, Eq, Structural)]
pub enum LoadError {
    /// The record stream ended early or held an undecodable value.
    Serialize,
    /// The decompressed stream grew past the hard ceiling.
    SizeLimit,
    /// The chunk did not start with the expected magic; carries the value
    /// that was found.
    WrongMagic(u16),
    /// The chunk's format version is not one this crate reads; carries the
    /// version that was found.
    Version(u32),
    /// A value in the chunk resolves outside its table: an id past the
    /// directory, a slot past an arena, a declared size past the ceiling.
    /// Carries the offending value.
    Corrupted(u32),
}

} // verus!
