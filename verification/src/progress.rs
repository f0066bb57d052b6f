//! Progress reporting: when a progress line is due and what it shows.

use vstd::prelude::*;
use crate::algorithm::HmacAlgorithm;

verus! {

/// What one progress line shows.
#[derive(Clone, Copy, Debug, PartialEq, Eq, Structural)]
pub struct ProgressReport {
    /// The HMAC variant being searched.
    pub algorithm: HmacAlgorithm,
    /// The number of candidates in the wordlist.
    pub total: usize,
    /// The share of the wordlist attempted so far, in hundredths.
    pub percent: u128,
}

/// The reporting granularity for `total` candidates: a hundredth of the
/// total, and at least one.
pub open spec fn chunk_size_spec(total: nat) -> nat {
    if total >= 100 {
        total / 100
    } else {
        1
    }
}

/// The share of `total` that `attempted` makes up, in hundredths, rounded
/// down; zero for an empty wordlist.
pub open spec fn percentage_spec(attempted: nat, total: nat) -> nat {
    if total == 0 {
        0
    } else {
        attempted * 100 / total
    }
}

/// Whether a progress line is due when the counter reads `attempted`.
pub open spec fn report_due_spec(attempted: nat, total: nat) -> bool {
    attempted % chunk_size_spec(total) == 0
}

/// The progress line for a counter value, if one is due.
pub open spec fn progress_report_spec(
    algorithm: HmacAlgorithm,
    attempted: nat,
    total: nat,
) -> Option<ProgressReport> {
    if report_due_spec(attempted, total) {
        Some(
            ProgressReport {
                algorithm,
                total: total as usize,
                percent: percentage_spec(attempted, total) as u128,
            },
        )
    } else {
        None
    }
}

/// The reporting granularity for `total` candidates.
pub fn chunk_size(total: usize) -> (chunk: usize)
    ensures
        chunk == chunk_size_spec(total as nat),
        chunk >= 1,
{
    let hundredth: usize = total / 100;
    if hundredth >= 1 {
        hundredth
    } else {
        1
    }
}

/// The share of `total` that `attempted` makes up, in hundredths. The
/// product is formed in 128 bits, so no counter value overflows it.
pub fn percentage(attempted: usize, total: usize) -> (percent: u128)
    ensures
        percent == percentage_spec(attempted as nat, total as nat),
        attempted <= total ==> percent <= 100,
{
    if total == 0 {
        0
    } else {
        let scaled: u128 = (attempted as u128) * 100;
        let percent: u128 = scaled / (total as u128);
        proof {
            if attempted <= total {
                assert(attempted * 100 / (total as int) <= 100) by (nonlinear_arith)
                    requires
                        0 <= attempted <= total,
                        total > 0,
                ;
            }
        }
        percent
    }
}

/// Whether a progress line is due when the counter reads `attempted`.
pub fn report_due(attempted: usize, total: usize) -> (due: bool)
    ensures
        due == report_due_spec(attempted as nat, total as nat),
{
    attempted % chunk_size(total) == 0
}

/// The progress line for a counter value, if one is due.
pub fn progress_report(algorithm: HmacAlgorithm, attempted: usize, total: usize) -> (report:
    Option<ProgressReport>)
    ensures
        report == progress_report_spec(algorithm, attempted as nat, total as nat),
{
    if report_due(attempted, total) {
        Some(ProgressReport { algorithm, total, percent: percentage(attempted, total) })
    } else {
        None
    }
}

} // verus!
