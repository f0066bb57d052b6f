use jwt_crack::algorithm::{AlgorithmIdentifier, HmacAlgorithm};
use jwt_crack::factory::{verdict, Startup, VerifierFactory};

const HEADER_HS256: &str = "eyJhbGciOiJIUzI1NiIsInR5cCI6IkpXVCJ9";
const HEADER_HS384: &str = "eyJhbGciOiJIUzM4NCIsInR5cCI6IkpXVCJ9";
const HEADER_HS512: &str = "eyJhbGciOiJIUzUxMiIsInR5cCI6IkpXVCJ9";
const PAYLOAD: &str =
    "eyJzdWIiOiIxMjM0NTY3ODkwIiwibmFtZSI6IkpvaG4gRG9lIiwiaWF0IjoxNTE2MjM5MDIyfQ";
const SIG_HS256_SECRET: &str = "XbPfbIHMI6arZ3Y922BhjWgQzWXcXNrz0ogtVhfEd2o";
const SIG_HS384_SECRET: &str =
    "hO2sthNQUSfvI9ylUdMKDxcrm8jB3KL6Rtkd3FOskL-jVqYh2CK1es8FKCQO8_tW";
const SIG_HS512_SECRET: &str = "wUVS6tazE2N98_J4SH_djkEe1igXPu0qILAvVXCiO6O20gdf5vZ2sYFWX3c-Hy6L4TD47b3DSAAO9XjSqpJfag";
const SIG_HS256_EMPTY_KEY: &str = "he0ErCNloe4J7Id0Ry2SEDg09lKkZkfsRiGsdX_vgEg";

#[test]
fn verify_accepts_the_true_key_hs256() {
    let verifier = VerifierFactory::new(HmacAlgorithm::Hs256).make_verifier(b"secret");
    assert!(verifier.verify(HEADER_HS256, PAYLOAD, SIG_HS256_SECRET));
}

#[test]
fn verify_accepts_the_true_key_hs384() {
    let verifier = VerifierFactory::new(HmacAlgorithm::Hs384).make_verifier(b"secret");
    assert!(verifier.verify(HEADER_HS384, PAYLOAD, SIG_HS384_SECRET));
}

#[test]
fn verify_accepts_the_true_key_hs512() {
    let verifier = VerifierFactory::new(HmacAlgorithm::Hs512).make_verifier(b"secret");
    assert!(verifier.verify(HEADER_HS512, PAYLOAD, SIG_HS512_SECRET));
}

#[test]
fn verify_rejects_another_key() {
    for key in [&b"wrong1"[..], b"Secret", b"secret ", b"secre", b""] {
        let verifier = VerifierFactory::new(HmacAlgorithm::Hs256).make_verifier(key);
        assert!(!verifier.verify(HEADER_HS256, PAYLOAD, SIG_HS256_SECRET));
    }
}

#[test]
fn verify_depends_on_the_width() {
    // The same key under another digest width does not reproduce the signature.
    let narrow = VerifierFactory::new(HmacAlgorithm::Hs256).make_verifier(b"secret");
    assert!(!narrow.verify(HEADER_HS384, PAYLOAD, SIG_HS384_SECRET));
    assert!(!narrow.verify(HEADER_HS512, PAYLOAD, SIG_HS512_SECRET));
    let wide = VerifierFactory::new(HmacAlgorithm::Hs512).make_verifier(b"secret");
    assert!(!wide.verify(HEADER_HS256, PAYLOAD, SIG_HS256_SECRET));
    let middle = VerifierFactory::new(HmacAlgorithm::Hs384).make_verifier(b"secret");
    assert!(!middle.verify(HEADER_HS256, PAYLOAD, SIG_HS256_SECRET));
}

#[test]
fn verify_signs_header_dot_payload() {
    let verifier = VerifierFactory::new(HmacAlgorithm::Hs256).make_verifier(b"secret");
    // Segments swapped or altered: another message, another signature.
    assert!(!verifier.verify(PAYLOAD, HEADER_HS256, SIG_HS256_SECRET));
    assert!(!verifier.verify(HEADER_HS256, "", SIG_HS256_SECRET));
    assert!(!verifier.verify(HEADER_HS384, PAYLOAD, SIG_HS256_SECRET));
}

#[test]
fn verify_counts_a_malformed_signature_as_no_match() {
    let verifier = VerifierFactory::new(HmacAlgorithm::Hs256).make_verifier(b"secret");
    assert!(!verifier.verify(HEADER_HS256, PAYLOAD, "not base64 !!"));
    assert!(!verifier.verify(HEADER_HS256, PAYLOAD, ""));
    assert!(!verifier.verify(HEADER_HS256, PAYLOAD, "XbPfbIHMI6arZ3Y922BhjWgQzWXcXNrz0ogtVhfEd2"));
    assert!(!verifier.verify(HEADER_HS256, PAYLOAD, "XbPfbIHMI6arZ3Y922BhjWgQzWXcXNrz0ogtVhfEd2o=="));
    assert!(!verifier.verify(HEADER_HS256, PAYLOAD, "=XbPfbIHMI6arZ3Y922BhjWgQzWXcXNrz0ogtVhfEd2o"));
}

#[test]
fn verify_compares_decoded_signature_bytes() {
    let verifier = VerifierFactory::new(HmacAlgorithm::Hs256).make_verifier(b"secret");
    // The decoder tolerates well-placed padding, and the bytes behind it are the same.
    assert!(verifier.verify(HEADER_HS256, PAYLOAD, "XbPfbIHMI6arZ3Y922BhjWgQzWXcXNrz0ogtVhfEd2o="));
    // The standard alphabet is not the token alphabet: `_` and `-` become `/` and `+`.
    assert!(!verifier.verify(
        "eyJhbGciOiJIUzM4NCIsInR5cCI6IkpXVCJ9",
        PAYLOAD,
        "hO2sthNQUSfvI9ylUdMKDxcrm8jB3KL6Rtkd3FOskL+jVqYh2CK1es8FKCQO8/tW"
    ));
}

#[test]
fn keys_of_any_length_are_accepted() {
    let factory = VerifierFactory::new(HmacAlgorithm::Hs256);
    assert!(factory.make_verifier(b"").verify(HEADER_HS256, PAYLOAD, SIG_HS256_EMPTY_KEY));
    assert!(!factory.make_verifier(b"").verify(HEADER_HS256, PAYLOAD, SIG_HS256_SECRET));
    // Longer than the block size of every variant.
    let long = vec![b'k'; 1000];
    for algorithm in [HmacAlgorithm::Hs256, HmacAlgorithm::Hs384, HmacAlgorithm::Hs512] {
        let verifier = VerifierFactory::new(algorithm).make_verifier(&long);
        assert!(!verifier.verify(HEADER_HS256, PAYLOAD, SIG_HS256_SECRET));
    }
}

#[test]
fn verifier_and_factory_remember_the_algorithm() {
    for algorithm in [HmacAlgorithm::Hs256, HmacAlgorithm::Hs384, HmacAlgorithm::Hs512] {
        let factory = VerifierFactory::new(algorithm);
        assert_eq!(factory.algorithm(), algorithm);
        assert_eq!(factory.make_verifier(b"k").algorithm_type(), algorithm);
    }
}

#[test]
fn startup_searches_for_hmac_only() {
    assert_eq!(
        Startup::decide(AlgorithmIdentifier::Hs256),
        Startup::Search(VerifierFactory::new(HmacAlgorithm::Hs256))
    );
    assert_eq!(
        Startup::decide(AlgorithmIdentifier::Hs384),
        Startup::Search(VerifierFactory::new(HmacAlgorithm::Hs384))
    );
    assert_eq!(
        Startup::decide(AlgorithmIdentifier::Hs512),
        Startup::Search(VerifierFactory::new(HmacAlgorithm::Hs512))
    );
    assert!(Startup::decide(AlgorithmIdentifier::Hs256).reads_wordlist());
    assert_eq!(Startup::decide(AlgorithmIdentifier::Hs256).exit_status(), 0);
}

#[test]
fn startup_without_signature_stops_successfully() {
    let startup = Startup::decide(AlgorithmIdentifier::NoSignature);
    assert_eq!(startup, Startup::NothingToCrack);
    assert!(!startup.reads_wordlist());
    assert_eq!(startup.exit_status(), 0);
}

#[test]
fn startup_with_unsupported_algorithm_stops_with_failure() {
    let startup = Startup::decide(AlgorithmIdentifier::Unsupported);
    assert_eq!(startup, Startup::Unsupported);
    assert!(!startup.reads_wordlist());
    assert_eq!(startup.exit_status(), 1);
}

#[test]
fn verdict_takes_an_error_for_no_match() {
    assert!(verdict(Ok(true)));
    assert!(!verdict(Ok(false)));
    assert!(!verdict(Err(jwt::Error::InvalidSignature)));
    assert!(!verdict(Err(jwt::Error::Format)));
}
