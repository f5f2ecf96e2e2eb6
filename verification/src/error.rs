use vstd::prelude::*;

verus! {

/// The four fixed tags that a WAVE container must carry, in the order the
/// reader expects them.
#[derive(Clone, Copy, Debug, PartialEq, Eq, Structural)]
pub enum WaveTag {
    /// `RIFF`, at the very start of the container.
    Riff,
    /// `WAVE`, right after the overall chunk size.
    Wave,
    /// `fmt ` (trailing space significant), opening the format sub-chunk.
    Fmt,
    /// `data`, opening the sample payload sub-chunk.
    Data,
}

/// Everything that can go wrong while importing or exporting a WAVE
/// container.  Every error is terminal for the current call: no partial
/// result is returned beside it.
#[derive(Clone, Copy, Debug, PartialEq, Eq, Structural)]
pub enum PCMError {
    /// The input ended before all expected bytes could be read.
    UnexpectedEndOfData,
    /// A fixed four-byte tag was not found where the named tag was expected.
    WrongMagicNumber(WaveTag),
    /// The format code in the header is not in the resolver's table.
    UnknownFormat(u16),
    /// The format code is known, but this bit width is unsupported for it.
    UnknownBitsPerSample(u16),
    /// The sample payload would not fit the container's 32-bit size field.
    /// Carries the payload size in bytes, saturated at `usize::MAX`.
    TooMuchData(usize),
    /// The frame count would not fit the `fact` chunk's 32-bit field.
    TooManyFrames(usize),
    /// The header declares zero channels, so no frame could ever be formed.
    ZeroChannels,
    /// The sample representation is resolvable, but its raw payload codec is
    /// deliberately not implemented.
    UnimplementedSampleRepresentation,
}

impl PCMError {
    /// A short, fixed description of the error.
    pub fn description(&self) -> (r: String)
        ensures
            self is UnexpectedEndOfData ==> r@ == "Stream ended before all expected data could be read"@,
            self is WrongMagicNumber ==> r@ == "Expected magic number was not found in stream"@,
            self is UnknownFormat ==> r@ == "Unknown format field value in Wave Header"@,
            self is UnknownBitsPerSample ==> r@ == "Cannot infer information about a Bits per Sample in Wave header"@,
            self is TooMuchData ==> r@ == "Number of bytes composing audio is too big to fit in a u32 number"@,
            self is TooManyFrames ==> r@ == "Number of frames is too big to fit in a u32 to write Fact chunk"@,
            self is ZeroChannels ==> r@ == "Wave header declares zero channels"@,
            self is UnimplementedSampleRepresentation ==> r@ == "No raw codec is implemented for this sample representation"@,
    {
        match self {
            PCMError::UnexpectedEndOfData => {
                String::from_str("Stream ended before all expected data could be read")
            },
            PCMError::WrongMagicNumber(_) => {
                String::from_str("Expected magic number was not found in stream")
            },
            PCMError::UnknownFormat(_) => {
                String::from_str("Unknown format field value in Wave Header")
            },
            PCMError::UnknownBitsPerSample(_) => {
                String::from_str("Cannot infer information about a Bits per Sample in Wave header")
            },
            PCMError::TooMuchData(_) => {
                String::from_str("Number of bytes composing audio is too big to fit in a u32 number")
            },
            PCMError::TooManyFrames(_) => {
                String::from_str("Number of frames is too big to fit in a u32 to write Fact chunk")
            },
            PCMError::ZeroChannels => {
                String::from_str("Wave header declares zero channels")
            },
            PCMError::UnimplementedSampleRepresentation => {
                String::from_str("No raw codec is implemented for this sample representation")
            },
        }
    }
}

} // verus!
