//! The token splitter: from a dot-delimited token string to its algorithm
//! identifier and its three segments.

use vstd::prelude::*;
use vstd::string::StringSliceAdditionalSpecFns;
use vstd::utf8::{
    decode_utf8, decode_utf8_split, encode_scalar, encode_utf8, encode_utf8_decode_utf8,
    encode_utf8_valid_utf8, is_char_boundary, is_char_boundary_iff_is_leading_byte,
    is_leading_byte_width_1, valid_utf8,
};
use jwt::{AlgorithmType, FromBase64};
use crate::algorithm::{AlgorithmIdentifier, HeaderAlgorithm};

verus! {

/// The byte that separates the segments of a token.
pub const SEPARATOR_BYTE: u8 = 0x2e;

/// The algorithm that `jwt::Header::from_base64` finds in a header segment:
/// `Some` of the `alg` field when the segment decodes to a header, `None`
/// when decoding fails.
pub uninterp spec fn decoded_header_algorithm(header: Seq<char>) -> Option<HeaderAlgorithm>;

/// Calls `jwt::Header::from_base64` (`jwt::FromBase64`) on a header segment
/// and hands out the `algorithm` field of the decoded header, variant for
/// variant.
///
/// Trusted: the outcome is a function of the segment's text alone, named
/// `decoded_header_algorithm`.
#[verifier::external_body]
fn decode_header_algorithm(header: &str) -> (r: Result<HeaderAlgorithm, jwt::Error>)
    ensures
        r matches Ok(algorithm) ==> decoded_header_algorithm(header@) == Some(algorithm),
        r is Err ==> decoded_header_algorithm(header@) is None,
{
    Ok(match jwt::Header::from_base64(header)?.algorithm {
        AlgorithmType::Hs256 => HeaderAlgorithm::Hs256,
        AlgorithmType::Hs384 => HeaderAlgorithm::Hs384,
        AlgorithmType::Hs512 => HeaderAlgorithm::Hs512,
        AlgorithmType::Rs256 => HeaderAlgorithm::Rs256,
        AlgorithmType::Rs384 => HeaderAlgorithm::Rs384,
        AlgorithmType::Rs512 => HeaderAlgorithm::Rs512,
        AlgorithmType::Es256 => HeaderAlgorithm::Es256,
        AlgorithmType::Es384 => HeaderAlgorithm::Es384,
        AlgorithmType::Es512 => HeaderAlgorithm::Es512,
        AlgorithmType::Ps256 => HeaderAlgorithm::Ps256,
        AlgorithmType::Ps384 => HeaderAlgorithm::Ps384,
        AlgorithmType::Ps512 => HeaderAlgorithm::Ps512,
        AlgorithmType::None => HeaderAlgorithm::Unsecured,
    })
}

/// The position of the first `'.'` in `s`, or the length of `s` if it has none.
pub open spec fn first_dot(s: Seq<char>) -> int
    decreases s.len(),
{
    if s.len() == 0 || s[0] == '.' {
        0
    } else {
        1 + first_dot(s.drop_first())
    }
}

/// The segments of `s`: the stretches of text between its dots, in order.
/// A text with `n` dots has `n + 1` segments, some of them possibly empty.
pub open spec fn segments(s: Seq<char>) -> Seq<Seq<char>>
    decreases s.len(),
{
    let dot = first_dot(s);
    if 0 <= dot < s.len() {
        seq![s.take(dot)] + segments(s.skip(dot + 1))
    } else {
        seq![s]
    }
}

/// `first_dot` is the position of a dot, or the length, and nothing before
/// it is a dot.
pub proof fn lemma_first_dot(s: Seq<char>)
    ensures
        0 <= first_dot(s) <= s.len(),
        first_dot(s) < s.len() ==> s[first_dot(s)] == '.',
        forall|k: int| 0 <= k < first_dot(s) ==> s[k] != '.',
    decreases s.len(),
{
    if s.len() == 0 || s[0] == '.' {
    } else {
        let rest = s.drop_first();
        lemma_first_dot(rest);
        assert forall|k: int| 0 <= k < first_dot(s) implies s[k] != '.' by {
            if k > 0 {
                assert(s[k] == rest[k - 1]);
            }
        }
    }
}

/// A text without a dot is its own single segment.
pub proof fn lemma_segments_whole(s: Seq<char>)
    requires
        !s.contains('.'),
    ensures
        segments(s) == seq![s],
{
    lemma_first_dot(s);
    if first_dot(s) < s.len() {
        assert(s.contains(s[first_dot(s)]));
    }
}

/// Text that reads `head`, a dot, `tail`, with no dot in `head`, has `head`
/// as its first segment, followed by the segments of `tail`.
pub proof fn lemma_segments_split(s: Seq<char>, head: Seq<char>, tail: Seq<char>)
    requires
        s == head + seq!['.'] + tail,
        !head.contains('.'),
    ensures
        segments(s) == seq![head] + segments(tail),
{
    lemma_first_dot(s);
    let dot = first_dot(s);
    let at = head.len() as int;
    assert(s[at] == '.');
    if dot < at {
        assert(s[dot] == head[dot]);
        assert(head.contains(head[dot]));
    }
    assert(dot == at);
    assert(s.take(dot) =~= head);
    assert(s.skip(dot + 1) =~= tail);
}

/// A dot among the characters shows up as the separator byte in their
/// UTF-8 encoding.
proof fn lemma_dot_is_encoded(chars: Seq<char>, k: int)
    requires
        0 <= k < chars.len(),
        chars[k] == '.',
    ensures
        encode_utf8(chars).contains(SEPARATOR_BYTE),
    decreases k,
{
    let first = encode_scalar(chars[0] as u32);
    let rest = encode_utf8(chars.drop_first());
    assert(encode_utf8(chars) == first + rest);
    if k == 0 {
        assert('.' as u32 == 0x2e);
        assert((0x2eu32 & 0x7f) as u8 == 0x2eu8) by (bit_vector);
        assert(first[0] == SEPARATOR_BYTE);
        assert((first + rest)[0] == SEPARATOR_BYTE);
    } else {
        lemma_dot_is_encoded(chars.drop_first(), k - 1);
        let j = choose|j: int| 0 <= j < rest.len() && rest[j] == SEPARATOR_BYTE;
        assert((first + rest)[first.len() + j] == SEPARATOR_BYTE);
    }
}

/// Text whose encoding holds no separator byte holds no dot.
proof fn lemma_no_separator_no_dot(chars: Seq<char>)
    requires
        !encode_utf8(chars).contains(SEPARATOR_BYTE),
    ensures
        !chars.contains('.'),
{
    if chars.contains('.') {
        let k = choose|k: int| 0 <= k < chars.len() && chars[k] == '.';
        lemma_dot_is_encoded(chars, k);
    }
}

/// The separator byte alone decodes to a single dot.
proof fn lemma_decode_separator(bytes: Seq<u8>)
    requires
        bytes =~= seq![SEPARATOR_BYTE],
    ensures
        valid_utf8(bytes),
        decode_utf8(bytes) == seq!['.'],
{
    reveal_with_fuel(valid_utf8, 2);
    reveal_with_fuel(decode_utf8, 2);
    assert((0x2eu8 & 0x7f) as u32 == 0x2eu32) by (bit_vector);
    assert(0x2eu32 as char == '.');
    assert(decode_utf8(bytes) =~= seq!['.']);
}

/// Splits `s` at its first dot into the text before it and the text after
/// it; `None` when `s` has no dot.
pub fn split_first_dot(s: &str) -> (r: Option<(&str, &str)>)
    ensures
        match r {
            Some((head, tail)) => s@ == head@ + seq!['.'] + tail@ && !head@.contains('.'),
            None => !s@.contains('.'),
        },
{
    let bytes = s.as_bytes();
    let mut i: usize = 0;
    while i < bytes.len()
        invariant
            i <= bytes@.len(),
            bytes@ == s.spec_bytes(),
            forall|k: int| 0 <= k < i ==> bytes@[k] != SEPARATOR_BYTE,
        decreases bytes@.len() - i,
    {
        if bytes[i] == SEPARATOR_BYTE {
            proof {
                encode_utf8_valid_utf8(s@);
                assert(is_leading_byte_width_1(bytes@[i as int]));
                is_char_boundary_iff_is_leading_byte(bytes@, i as int);
            }
            let (head, rest) = s.split_at(i);
            proof {
                encode_utf8_valid_utf8(rest@);
                let rb = rest.spec_bytes();
                assert(rb[0] == SEPARATOR_BYTE);
                reveal_with_fuel(is_char_boundary, 2);
                reveal_with_fuel(valid_utf8, 2);
                assert(is_char_boundary(rb, 1));
            }
            let (dot, tail) = rest.split_at(1);
            proof {
                let b = bytes@;
                let rb = rest.spec_bytes();
                encode_utf8_decode_utf8(s@);
                encode_utf8_decode_utf8(head@);
                encode_utf8_decode_utf8(rest@);
                encode_utf8_decode_utf8(dot@);
                encode_utf8_decode_utf8(tail@);
                decode_utf8_split(b, i as int);
                assert(s@ == head@ + rest@);
                decode_utf8_split(rb, 1);
                assert(rest@ == dot@ + tail@);
                lemma_decode_separator(dot.spec_bytes());
                assert(dot@ == seq!['.']);
                assert(!head.spec_bytes().contains(SEPARATOR_BYTE)) by {
                    if head.spec_bytes().contains(SEPARATOR_BYTE) {
                        let j = choose|j: int|
                            0 <= j < head.spec_bytes().len() && head.spec_bytes()[j]
                                == SEPARATOR_BYTE;
                        assert(b[j] == SEPARATOR_BYTE);
                    }
                }
                lemma_no_separator_no_dot(head@);
                assert(s@ =~= head@ + seq!['.'] + tail@);
            }
            return Some((head, tail));
        }
        i += 1;
    }
    proof {
        assert(!bytes@.contains(SEPARATOR_BYTE));
        lemma_no_separator_no_dot(s@);
    }
    None
}

/// Why a token string could not be split.
#[derive(Clone, Copy, Debug, PartialEq, Eq, Structural)]
pub enum TokenError {
    /// The string has no header segment. Splitting never reports this: even an
    /// empty string has a first segment, which is then the header.
    NoHeader,
    /// The string has no payload segment: it holds no dot.
    NoPayload,
    /// The string has no signature segment: it holds one dot only.
    NoSignature,
    /// The header segment does not decode to a header with an algorithm.
    UndecodableHeader,
}

/// A token: its algorithm identifier and its three segments, as they stand
/// in the token string.
#[derive(Clone, Copy, Debug)]
pub struct Token<'a> {
    pub algorithm: AlgorithmIdentifier,
    pub header: &'a str,
    pub payload: &'a str,
    pub signature: &'a str,
}

/// What a token is: its algorithm identifier and the text of its segments.
pub struct TokenView {
    pub algorithm: AlgorithmIdentifier,
    pub header: Seq<char>,
    pub payload: Seq<char>,
    pub signature: Seq<char>,
}

impl<'a> View for Token<'a> {
    type V = TokenView;

    open spec fn view(&self) -> TokenView {
        TokenView {
            algorithm: self.algorithm,
            header: self.header@,
            payload: self.payload@,
            signature: self.signature@,
        }
    }
}

/// What splitting the token string `s` gives: the first three segments and
/// the algorithm that the first one decodes to, or the reason why not.
/// Segments after the third are ignored. A string always has a first
/// segment, so a header is never missing.
pub open spec fn split_spec(s: Seq<char>) -> Result<TokenView, TokenError> {
    let parts = segments(s);
    if parts.len() < 2 {
        Err(TokenError::NoPayload)
    } else if parts.len() < 3 {
        Err(TokenError::NoSignature)
    } else {
        match decoded_header_algorithm(parts[0]) {
            Some(algorithm) => Ok(
                TokenView {
                    algorithm: AlgorithmIdentifier::classify_spec(algorithm),
                    header: parts[0],
                    payload: parts[1],
                    signature: parts[2],
                },
            ),
            None => Err(TokenError::UndecodableHeader),
        }
    }
}

/// Splits a token string into its algorithm identifier and its header,
/// payload and signature segments.
pub fn split_jwt<'a>(jwt: &'a str) -> (r: Result<Token<'a>, TokenError>)
    ensures
        match r {
            Ok(token) => split_spec(jwt@) == Ok::<TokenView, TokenError>(token@),
            Err(e) => split_spec(jwt@) == Err::<TokenView, TokenError>(e),
        },
        r != Err::<Token<'a>, TokenError>(TokenError::NoHeader),
{
    let (header, after_header) = match split_first_dot(jwt) {
        Some(pair) => pair,
        None => {
            proof {
                lemma_segments_whole(jwt@);
            }
            return Err(TokenError::NoPayload);
        },
    };
    proof {
        lemma_segments_split(jwt@, header@, after_header@);
    }
    let (payload, after_payload) = match split_first_dot(after_header) {
        Some(pair) => pair,
        None => {
            proof {
                lemma_segments_whole(after_header@);
            }
            return Err(TokenError::NoSignature);
        },
    };
    proof {
        lemma_segments_split(after_header@, payload@, after_payload@);
    }
    let signature = match split_first_dot(after_payload) {
        Some((signature, more)) => {
            proof {
                lemma_segments_split(after_payload@, signature@, more@);
            }
            signature
        },
        None => {
            proof {
                lemma_segments_whole(after_payload@);
            }
            after_payload
        },
    };
    proof {
        let parts = segments(jwt@);
        assert(parts.len() >= 3);
        assert(parts[0] == header@);
        assert(parts[1] == payload@);
        assert(parts[2] == signature@);
    }
    match decode_header_algorithm(header) {
        Ok(algorithm) => Ok(
            Token { algorithm: AlgorithmIdentifier::classify(algorithm), header, payload, signature },
        ),
        Err(_) => Err(TokenError::UndecodableHeader),
    }
}

} // verus!
