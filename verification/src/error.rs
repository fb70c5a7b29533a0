use vstd::prelude::*;

verus! {

/// Everything that can go wrong around an encode or a decode. The codec
/// itself produces only `InvalidInput` and `FormatMismatch`; the two other
/// variants stand for failures of the surrounding I/O layer, which maps its
/// errors onto them before handing control back.
#[derive(Clone, Copy, Debug, PartialEq, Eq, Structural)]
pub enum BruhError {
    /// A required source buffer is absent or shorter than the fixed header size.
    InvalidInput,
    /// The leading magic tag does not match: not a file of this format.
    FormatMismatch,
    /// The upstream bitmap source could not be decoded on the encode path.
    SourceDecodeError,
    /// A read or write against persistent storage failed.
    IOFailure,
}

impl BruhError {
    /// A short human-readable description of the error.
    pub fn message(&self) -> (r: &'static str)
        ensures
            *self == BruhError::InvalidInput ==> r@ == "input buffer is missing or shorter than the header"@,
            *self == BruhError::FormatMismatch ==> r@ == "file was not in BRUH format (header did not match magic number)"@,
            *self == BruhError::SourceDecodeError ==> r@ == "source image could not be decoded"@,
            *self == BruhError::IOFailure ==> r@ == "reading or writing the file failed"@,
    {
        match self {
            BruhError::InvalidInput => "input buffer is missing or shorter than the header",
            BruhError::FormatMismatch => "file was not in BRUH format (header did not match magic number)",
            BruhError::SourceDecodeError => "source image could not be decoded",
            BruhError::IOFailure => "reading or writing the file failed",
        }
    }
}

} // verus!
