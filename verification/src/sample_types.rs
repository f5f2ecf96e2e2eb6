use vstd::prelude::*;

verus! {

/// Placeholder payload for a three-byte signed sample.  The representation is
/// part of the sample model, but its wire codec is deliberately not
/// implemented, so the payload carries no value yet.
#[derive(Clone, Copy, Debug, PartialEq, Eq, Structural)]
pub struct I24 {}

/// Placeholder payload for a half-byte IMA ADPCM sample.  Modeled so that
/// headers naming the format can be sized, but decoding is not implemented.
#[derive(Clone, Copy, Debug, PartialEq, Eq, Structural)]
pub struct ImaADPCM {}

/// Placeholder payload for a half-byte Microsoft ADPCM sample.  Modeled so
/// that headers naming the format can be sized, but decoding is not
/// implemented.
#[derive(Clone, Copy, Debug, PartialEq, Eq, Structural)]
pub struct MicrosoftADPCM {}

} // verus!
