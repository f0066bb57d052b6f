//! The candidate source: from the bytes of a wordlist to the candidate keys
//! it offers, one per usable line, in file order.

use vstd::prelude::*;
use vstd::slice::slice_subrange;
use vstd::string::StringSliceAdditionalSpecFns;
use vstd::utf8::{decode_utf8, encode_utf8_decode_utf8, valid_utf8};

verus! {

/// The byte that ends a line.
pub const LINE_FEED: u8 = 0x0a;

/// The byte that, right before a line feed, belongs to the line ending.
pub const CARRIAGE_RETURN: u8 = 0x0d;

/// The error of `core::str::from_utf8`, carried through as an opaque value.
#[verifier::external_type_specification]
#[verifier::external_body]
pub struct ExUtf8Error(core::str::Utf8Error);

/// `core::str::from_utf8` turns bytes into text exactly when they are valid
/// UTF-8, and the text it gives has those bytes as its encoding.
pub assume_specification[ core::str::from_utf8 ](v: &[u8]) -> (r: Result<
    &str,
    core::str::Utf8Error,
>)
    ensures
        r is Ok <==> valid_utf8(v@),
        r matches Ok(text) ==> text.spec_bytes() == v@,
;

/// The position of the first line feed at or after `from`, or the length of
/// `data` if there is none.
pub open spec fn line_end(data: Seq<u8>, from: int) -> int
    decreases data.len() - from,
{
    if from >= data.len() {
        data.len() as int
    } else if data[from] == LINE_FEED {
        from
    } else {
        line_end(data, from + 1)
    }
}

/// Where the line after the one starting at `from` starts: behind the line
/// feed, or at the end of `data` if no line feed follows.
pub open spec fn next_line(data: Seq<u8>, from: int) -> int {
    let end = line_end(data, from);
    if end < data.len() {
        end + 1
    } else {
        end
    }
}

/// The line that starts at `from`, without its ending. A line ends with a
/// line feed, or with a carriage return and a line feed; the last line may
/// end with the data, and then keeps a carriage return at its end.
pub open spec fn line_at(data: Seq<u8>, from: int) -> Seq<u8> {
    let end = line_end(data, from);
    if from < end < data.len() && data[end - 1] == CARRIAGE_RETURN {
        data.subrange(from, end - 1)
    } else {
        data.subrange(from, end)
    }
}

/// The lines of `data` from position `from` on.
pub open spec fn lines_from(data: Seq<u8>, from: int) -> Seq<Seq<u8>>
    decreases data.len() - from,
{
    if 0 <= from < data.len() {
        proof {
            lemma_line_end(data, from);
        }
        seq![line_at(data, from)] + lines_from(data, next_line(data, from))
    } else {
        seq![]
    }
}

/// The lines of `data`. Data that ends with a line feed has no empty line
/// after it, and empty data has no line at all.
pub open spec fn lines(data: Seq<u8>) -> Seq<Seq<u8>> {
    lines_from(data, 0)
}

/// Whether a line is offered as a candidate: it is not empty and it is
/// valid UTF-8.
pub open spec fn is_candidate(line: Seq<u8>) -> bool {
    line.len() > 0 && valid_utf8(line)
}

/// The candidates among `lines`, as text, in the order of the lines.
pub open spec fn select_candidates(lines: Seq<Seq<u8>>) -> Seq<Seq<char>> {
    lines.filter(|line: Seq<u8>| is_candidate(line)).map_values(
        |line: Seq<u8>| decode_utf8(line),
    )
}

/// The candidates that the wordlist `data` offers.
pub open spec fn candidates_spec(data: Seq<u8>) -> Seq<Seq<char>> {
    select_candidates(lines(data))
}

/// The text of each word.
pub open spec fn texts(words: Seq<&str>) -> Seq<Seq<char>> {
    words.map_values(|word: &str| word@)
}

/// `line_end` lies between `from` and the end of the data, is a line feed
/// unless it is the end, and no line feed comes before it.
pub proof fn lemma_line_end(data: Seq<u8>, from: int)
    requires
        0 <= from <= data.len(),
    ensures
        from <= line_end(data, from) <= data.len(),
        line_end(data, from) < data.len() ==> data[line_end(data, from)] == LINE_FEED,
        forall|k: int| from <= k < line_end(data, from) ==> data[k] != LINE_FEED,
    decreases data.len() - from,
{
    if from < data.len() && data[from] != LINE_FEED {
        lemma_line_end(data, from + 1);
    }
}

/// The first line feed at or after `from` is the end of the line.
proof fn lemma_line_end_is(data: Seq<u8>, from: int, end: int)
    requires
        0 <= from <= end <= data.len(),
        end < data.len() ==> data[end] == LINE_FEED,
        forall|k: int| from <= k < end ==> data[k] != LINE_FEED,
    ensures
        line_end(data, from) == end,
{
    lemma_line_end(data, from);
}

/// Selecting from one more line adds that line's text if it is a candidate,
/// and nothing otherwise.
proof fn lemma_select_push(seen: Seq<Seq<u8>>, line: Seq<u8>)
    ensures
        select_candidates(seen.push(line)) == if is_candidate(line) {
            select_candidates(seen).push(decode_utf8(line))
        } else {
            select_candidates(seen)
        },
{
    let keep = |line: Seq<u8>| is_candidate(line);
    reveal_with_fuel(Seq::filter, 2);
    assert(seen.push(line).drop_last() == seen);
    if is_candidate(line) {
        assert(seen.push(line).filter(keep) == seen.filter(keep).push(line));
        assert(select_candidates(seen.push(line)) =~= select_candidates(seen).push(
            decode_utf8(line),
        ));
    } else {
        assert(seen.push(line).filter(keep) == seen.filter(keep));
    }
}

/// The candidates that a wordlist offers: its lines that are not empty and
/// decode as text, in file order. Blank and undecodable lines are skipped.
pub fn candidates<'a>(data: &'a [u8]) -> (words: Vec<&'a str>)
    ensures
        texts(words@) == candidates_spec(data@),
{
    let mut words: Vec<&'a str> = Vec::new();
    let mut start: usize = 0;
    let ghost mut seen: Seq<Seq<u8>> = Seq::empty();
    proof {
        assert(texts(words@) =~= select_candidates(seen));
        assert(seen + lines_from(data@, 0) =~= lines(data@));
    }
    while start < data.len()
        invariant
            start <= data@.len(),
            lines(data@) == seen + lines_from(data@, start as int),
            texts(words@) == select_candidates(seen),
        decreases data@.len() - start,
    {
        let mut end: usize = start;
        while end < data.len() && data[end] != LINE_FEED
            invariant
                start <= end <= data@.len(),
                forall|k: int| start <= k < end ==> data@[k] != LINE_FEED,
            decreases data@.len() - end,
        {
            end += 1;
        }
        proof {
            lemma_line_end_is(data@, start as int, end as int);
        }
        let terminated = end < data.len();
        let stop = if terminated && start < end && data[end - 1] == CARRIAGE_RETURN {
            end - 1
        } else {
            end
        };
        let line = slice_subrange(data, start, stop);
        assert(line@ == line_at(data@, start as int));
        let ghost before = words@;
        if line.len() > 0 {
            match core::str::from_utf8(line) {
                Ok(text) => {
                    words.push(text);
                    proof {
                        encode_utf8_decode_utf8(text@);
                        assert(text@ == decode_utf8(line@));
                        assert(texts(words@) =~= texts(before).push(text@));
                    }
                },
                Err(_) => {},
            }
        }
        proof {
            lemma_select_push(seen, line@);
            assert(seen.push(line@) + lines_from(data@, next_line(data@, start as int)) =~= seen
                + lines_from(data@, start as int));
            seen = seen.push(line@);
        }
        start = if terminated {
            end + 1
        } else {
            end
        };
    }
    proof {
        assert(seen + lines_from(data@, start as int) =~= seen);
    }
    words
}

} // verus!
