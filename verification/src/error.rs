//! The ways in which a read can fail.
use vstd::prelude::*;

verus! {

/// Why a field could not be decoded.
#[derive(Debug, Clone, Copy, PartialEq, Eq, Structural)]
pub enum DecodeError {
    /// The end offset of the requested bytes does not fit in `usize`.
    AddOverflow,
    /// The requested bytes end at offset `index`, past the end of the buffer.
    EndOfBuffer { index: usize },
    /// A length that does not fit the fixed size of the records it announces.
    NotEnoughBytes,
    /// Bytes that were to be text are not valid UTF-8.
    InvalidEncoding,
}

/// What a read returns.
pub type DecodeResult<T> = Result<T, DecodeError>;

} // verus!
