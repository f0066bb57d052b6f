//! Algorithm identifiers: what a token header names and what the search makes of it.

use vstd::prelude::*;

verus! {

/// The signing algorithm named by a token header, one variant for each name
/// the header decoder knows.
#[derive(Clone, Copy, Debug, PartialEq, Eq, Structural)]
pub enum HeaderAlgorithm {
    Hs256,
    Hs384,
    Hs512,
    Rs256,
    Rs384,
    Rs512,
    Es256,
    Es384,
    Es512,
    Ps256,
    Ps384,
    Ps512,
    /// The header says that the token is not signed.
    Unsecured,
}

/// One of the three HMAC variants that can be searched, named by digest width.
#[derive(Clone, Copy, Debug, PartialEq, Eq, Structural)]
pub enum HmacAlgorithm {
    Hs256,
    Hs384,
    Hs512,
}

/// What the search distinguishes about a token's algorithm: the three HMAC
/// widths, the explicit absence of a signature, and everything else.
#[derive(Clone, Copy, Debug, PartialEq, Eq, Structural)]
pub enum AlgorithmIdentifier {
    Hs256,
    Hs384,
    Hs512,
    /// The token is explicitly not signed.
    NoSignature,
    /// Any algorithm that is not an HMAC variant.
    Unsupported,
}

impl AlgorithmIdentifier {
    /// The identifier for a decoded header algorithm: the HMAC names keep
    /// their own variant, an unsecured token has `NoSignature`, and every
    /// other name is `Unsupported`.
    pub open spec fn classify_spec(alg: HeaderAlgorithm) -> AlgorithmIdentifier {
        match alg {
            HeaderAlgorithm::Hs256 => AlgorithmIdentifier::Hs256,
            HeaderAlgorithm::Hs384 => AlgorithmIdentifier::Hs384,
            HeaderAlgorithm::Hs512 => AlgorithmIdentifier::Hs512,
            HeaderAlgorithm::Unsecured => AlgorithmIdentifier::NoSignature,
            _ => AlgorithmIdentifier::Unsupported,
        }
    }

    /// Classifies a decoded header algorithm.
    pub fn classify(alg: HeaderAlgorithm) -> (id: AlgorithmIdentifier)
        ensures
            id == Self::classify_spec(alg),
    {
        match alg {
            HeaderAlgorithm::Hs256 => AlgorithmIdentifier::Hs256,
            HeaderAlgorithm::Hs384 => AlgorithmIdentifier::Hs384,
            HeaderAlgorithm::Hs512 => AlgorithmIdentifier::Hs512,
            HeaderAlgorithm::Unsecured => AlgorithmIdentifier::NoSignature,
            _ => AlgorithmIdentifier::Unsupported,
        }
    }

    /// The HMAC variant behind this identifier, if it is one.
    pub open spec fn hmac_spec(self) -> Option<HmacAlgorithm> {
        match self {
            AlgorithmIdentifier::Hs256 => Some(HmacAlgorithm::Hs256),
            AlgorithmIdentifier::Hs384 => Some(HmacAlgorithm::Hs384),
            AlgorithmIdentifier::Hs512 => Some(HmacAlgorithm::Hs512),
            _ => None,
        }
    }
}

} // verus!
