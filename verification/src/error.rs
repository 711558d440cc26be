use vstd::prelude::*;

verus! {

/// The single error kind of the builder path: an identifier was constructed
/// from input whose length is not exactly 4 bytes.
#[derive(Debug, Clone, Copy, PartialEq, Eq, Structural)]
pub enum RiffError {
    ConversionError,
}

/// Result type of every fallible operation of this crate.
pub type RiffResult<T> = Result<T, RiffError>;

} // verus!
