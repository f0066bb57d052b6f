//! The keyed verifier factory: from an algorithm identifier to a capability
//! that checks a token's signature under one candidate key.
//!
//! The keyed hashes themselves are computed by the `hmac` and `sha2` crates
//! through `jwt`'s verifying algorithms. Their results are not proved here:
//! each is named by a specification function, and everything built on top is
//! proved relative to those names.

use vstd::prelude::*;
use vstd::slice::slice_to_vec;
use hmac::{Hmac, Mac};
use jwt::VerifyingAlgorithm;
use sha2::{Sha256, Sha384, Sha512};
use crate::algorithm::{AlgorithmIdentifier, HmacAlgorithm};

verus! {

/// The error type of the `jwt` crate, carried through as an opaque value.
#[verifier::external_type_specification]
#[verifier::external_body]
pub struct ExJwtError(jwt::Error);

/// What `jwt`'s `VerifyingAlgorithm::verify` returns for an HMAC-SHA-256
/// context keyed with `key`: `Some(b)` for `Ok(b)`, `None` for an error.
pub uninterp spec fn hs256_verify_result(
    key: Seq<u8>,
    header: Seq<char>,
    payload: Seq<char>,
    signature: Seq<char>,
) -> Option<bool>;

/// What `jwt`'s `VerifyingAlgorithm::verify` returns for an HMAC-SHA-384
/// context keyed with `key`: `Some(b)` for `Ok(b)`, `None` for an error.
pub uninterp spec fn hs384_verify_result(
    key: Seq<u8>,
    header: Seq<char>,
    payload: Seq<char>,
    signature: Seq<char>,
) -> Option<bool>;

/// What `jwt`'s `VerifyingAlgorithm::verify` returns for an HMAC-SHA-512
/// context keyed with `key`: `Some(b)` for `Ok(b)`, `None` for an error.
pub uninterp spec fn hs512_verify_result(
    key: Seq<u8>,
    header: Seq<char>,
    payload: Seq<char>,
    signature: Seq<char>,
) -> Option<bool>;

/// Calls `jwt::VerifyingAlgorithm::verify` on an `Hmac<Sha256>` that
/// `hmac::Mac::new_from_slice` built from `key`.
///
/// Trusted: the result is a function of the four arguments alone, named
/// `hs256_verify_result`. Building the keyed context cannot fail, since HMAC
/// takes a key of any length, so the call never panics.
#[verifier::external_body]
fn hs256_verify(key: &[u8], header: &str, payload: &str, signature: &str) -> (r: Result<
    bool,
    jwt::Error,
>)
    ensures
        r matches Ok(b) ==> hs256_verify_result(key@, header@, payload@, signature@) == Some(b),
        r is Err ==> hs256_verify_result(key@, header@, payload@, signature@) is None,
{
    let mac = Hmac::<Sha256>::new_from_slice(key).expect("HMAC takes a key of any length");
    VerifyingAlgorithm::verify(&mac, header, payload, signature)
}

/// Calls `jwt::VerifyingAlgorithm::verify` on an `Hmac<Sha384>` that
/// `hmac::Mac::new_from_slice` built from `key`.
///
/// Trusted: the result is a function of the four arguments alone, named
/// `hs384_verify_result`. Building the keyed context cannot fail, since HMAC
/// takes a key of any length, so the call never panics.
#[verifier::external_body]
fn hs384_verify(key: &[u8], header: &str, payload: &str, signature: &str) -> (r: Result<
    bool,
    jwt::Error,
>)
    ensures
        r matches Ok(b) ==> hs384_verify_result(key@, header@, payload@, signature@) == Some(b),
        r is Err ==> hs384_verify_result(key@, header@, payload@, signature@) is None,
{
    let mac = Hmac::<Sha384>::new_from_slice(key).expect("HMAC takes a key of any length");
    VerifyingAlgorithm::verify(&mac, header, payload, signature)
}

/// Calls `jwt::VerifyingAlgorithm::verify` on an `Hmac<Sha512>` that
/// `hmac::Mac::new_from_slice` built from `key`.
///
/// Trusted: the result is a function of the four arguments alone, named
/// `hs512_verify_result`. Building the keyed context cannot fail, since HMAC
/// takes a key of any length, so the call never panics.
#[verifier::external_body]
fn hs512_verify(key: &[u8], header: &str, payload: &str, signature: &str) -> (r: Result<
    bool,
    jwt::Error,
>)
    ensures
        r matches Ok(b) ==> hs512_verify_result(key@, header@, payload@, signature@) == Some(b),
        r is Err ==> hs512_verify_result(key@, header@, payload@, signature@) is None,
{
    let mac = Hmac::<Sha512>::new_from_slice(key).expect("HMAC takes a key of any length");
    VerifyingAlgorithm::verify(&mac, header, payload, signature)
}

/// What the keyed hash of `algorithm` under `key` says about a token's
/// segments: `Some(b)` when the check ran and gave `b`, `None` when it
/// reported an error.
pub open spec fn verify_result(
    algorithm: HmacAlgorithm,
    key: Seq<u8>,
    header: Seq<char>,
    payload: Seq<char>,
    signature: Seq<char>,
) -> Option<bool> {
    match algorithm {
        HmacAlgorithm::Hs256 => hs256_verify_result(key, header, payload, signature),
        HmacAlgorithm::Hs384 => hs384_verify_result(key, header, payload, signature),
        HmacAlgorithm::Hs512 => hs512_verify_result(key, header, payload, signature),
    }
}

/// Whether `signature` is the signature of `header` and `payload` under
/// `key`. An error from the keyed hash counts as a signature that does not
/// match.
pub open spec fn signature_matches(
    algorithm: HmacAlgorithm,
    key: Seq<u8>,
    header: Seq<char>,
    payload: Seq<char>,
    signature: Seq<char>,
) -> bool {
    verify_result(algorithm, key, header, payload, signature) == Some(true)
}

/// What a verification is worth, given what the keyed hash returned: its
/// answer when it gave one, and no match when it reported an error.
pub fn verdict(outcome: Result<bool, jwt::Error>) -> (matched: bool)
    ensures
        matched == (outcome == Ok::<bool, jwt::Error>(true)),
{
    match outcome {
        Ok(matched) => matched,
        Err(_) => false,
    }
}

/// A capability bound to one candidate key, able to check a signature.
pub struct Verifier {
    algorithm: HmacAlgorithm,
    key: Vec<u8>,
}

/// What a verifier is: its HMAC variant and its key.
pub struct VerifierView {
    pub algorithm: HmacAlgorithm,
    pub key: Seq<u8>,
}

impl View for Verifier {
    type V = VerifierView;

    closed spec fn view(&self) -> VerifierView {
        VerifierView { algorithm: self.algorithm, key: self.key@ }
    }
}

impl Verifier {
    /// The HMAC variant of this verifier.
    pub fn algorithm_type(&self) -> (algorithm: HmacAlgorithm)
        ensures
            algorithm == self@.algorithm,
    {
        self.algorithm
    }

    /// Checks `signature` against the signature of `header` and `payload`
    /// under this verifier's key.
    pub fn verify(&self, header: &str, payload: &str, signature: &str) -> (matched: bool)
        ensures
            matched == signature_matches(
                self@.algorithm,
                self@.key,
                header@,
                payload@,
                signature@,
            ),
    {
        let key = self.key.as_slice();
        let outcome = match self.algorithm {
            HmacAlgorithm::Hs256 => hs256_verify(key, header, payload, signature),
            HmacAlgorithm::Hs384 => hs384_verify(key, header, payload, signature),
            HmacAlgorithm::Hs512 => hs512_verify(key, header, payload, signature),
        };
        verdict(outcome)
    }
}

/// Builds verifiers of one HMAC variant. Made once per run from the token's
/// algorithm identifier and then only read.
#[derive(Clone, Copy, Debug, PartialEq, Eq, Structural)]
pub struct VerifierFactory {
    algorithm: HmacAlgorithm,
}

impl VerifierFactory {
    /// The HMAC variant of the verifiers this factory builds.
    pub closed spec fn algorithm_spec(self) -> HmacAlgorithm {
        self.algorithm
    }

    /// The factory for an HMAC variant.
    pub fn new(algorithm: HmacAlgorithm) -> (factory: VerifierFactory)
        ensures
            factory.algorithm_spec() == algorithm,
    {
        VerifierFactory { algorithm }
    }

    /// The HMAC variant of the verifiers this factory builds.
    pub fn algorithm(&self) -> (algorithm: HmacAlgorithm)
        ensures
            algorithm == self.algorithm_spec(),
    {
        self.algorithm
    }

    /// Builds the verifier keyed with `candidate`. Every byte string is a
    /// key, whatever its length.
    pub fn make_verifier(&self, candidate: &[u8]) -> (verifier: Verifier)
        ensures
            verifier@.algorithm == self.algorithm_spec(),
            verifier@.key == candidate@,
    {
        Verifier { algorithm: self.algorithm, key: slice_to_vec(candidate) }
    }
}

/// What to do once the algorithm identifier is known, before the wordlist is
/// touched.
#[derive(Clone, Copy, Debug, PartialEq, Eq, Structural)]
pub enum Startup {
    /// Read the wordlist and search with verifiers from this factory.
    Search(VerifierFactory),
    /// The token carries no signature: report that and stop successfully.
    NothingToCrack,
    /// The algorithm is not an HMAC variant: report that and stop with failure.
    Unsupported,
}

impl Startup {
    /// Whether this decision leads to the wordlist being read.
    pub open spec fn reads_wordlist_spec(self) -> bool {
        self is Search
    }

    /// The exit status of a run that stops at this decision without
    /// searching: zero for success, one for failure. A search ends
    /// successfully whether or not it finds the secret.
    pub open spec fn exit_status_spec(self) -> int {
        if self is Unsupported {
            1
        } else {
            0
        }
    }

    /// Decides what to do for an algorithm identifier. Only an HMAC variant
    /// leads to a search, with a factory of that variant. The absence of a
    /// signature ends the run successfully and any other algorithm ends it
    /// with failure, both without reading the wordlist.
    pub fn decide(id: AlgorithmIdentifier) -> (startup: Startup)
        ensures
            match id.hmac_spec() {
                Some(algorithm) => startup matches Startup::Search(factory)
                    && factory.algorithm_spec() == algorithm,
                None => !startup.reads_wordlist_spec(),
            },
            id == AlgorithmIdentifier::NoSignature ==> startup == Startup::NothingToCrack
                && startup.exit_status_spec() == 0,
            id == AlgorithmIdentifier::Unsupported ==> startup == Startup::Unsupported
                && startup.exit_status_spec() == 1,
    {
        match id {
            AlgorithmIdentifier::Hs256 => Startup::Search(VerifierFactory::new(HmacAlgorithm::Hs256)),
            AlgorithmIdentifier::Hs384 => Startup::Search(VerifierFactory::new(HmacAlgorithm::Hs384)),
            AlgorithmIdentifier::Hs512 => Startup::Search(VerifierFactory::new(HmacAlgorithm::Hs512)),
            AlgorithmIdentifier::NoSignature => Startup::NothingToCrack,
            AlgorithmIdentifier::Unsupported => Startup::Unsupported,
        }
    }

    /// Whether this decision leads to the wordlist being read.
    pub fn reads_wordlist(self) -> (reads: bool)
        ensures
            reads == self.reads_wordlist_spec(),
    {
        match self {
            Startup::Search(_) => true,
            _ => false,
        }
    }

    /// The exit status of a run that stops at this decision without searching.
    pub fn exit_status(self) -> (code: i32)
        ensures
            code == self.exit_status_spec(),
    {
        match self {
            Startup::Unsupported => 1,
            _ => 0,
        }
    }
}

} // verus!
