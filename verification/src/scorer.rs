//! The guessability scorer and the length up to which it is handed a
//! password. The call itself is not proved: its contract states what the
//! source of the `zxcvbn` crate shows.

use vstd::prelude::*;

verus! {

/// Why the scorer gave no score.
#[derive(Clone, Copy, Debug, PartialEq, Eq, Structural)]
pub enum ScoreError {
    /// The scorer could not read a usable time from the system clock.
    DurationOutOfRange,
}

/// The number of characters up to which the scorer is handed a password:
/// 20, and 12 on a machine whose words have fewer than 64 bits.
///
/// For a password of `n` characters the scorer forms, without a check for
/// overflow, the factorial of up to `n` in a machine word, powers of 4 and
/// 5 with up to `n - 1` as the exponent in 64 bits, and the product of a
/// rank below 2^15, of two counts of variations that are each below 2^n,
/// and of 2 in 64 bits. A word of 32 bits holds the factorial of 12 and not
/// that of 13; 64 bits hold the factorial of 20 and not that of 21.
pub open spec fn spec_scorer_limit() -> nat {
    if usize::BITS >= 64 {
        20
    } else {
        12
    }
}

/// The number of characters up to which the scorer is handed a password.
pub fn scorer_limit() -> (limit: usize)
    ensures
        limit == spec_scorer_limit(),
{
    if usize::BITS >= 64 {
        20
    } else {
        12
    }
}

/// Calls `zxcvbn::zxcvbn` on the password with no user inputs and hands out
/// the score of the estimate.
///
/// The scorer refuses an empty password, and its arithmetic can overflow,
/// which panics where overflow is checked, on a password of more
/// characters than `spec_scorer_limit` allows: neither is handed to it.
/// For any other password it reads the system clock and fails with its
/// duration error when the clock is before the epoch, which is the only
/// error left; otherwise the score is one of 0 to 4. The score itself is
/// not stated: the scorer measures dates in a password against the current
/// year, so it is no function of the password alone. The scorer subtracts
/// two clock readings and panics if the clock steps back between them,
/// which no input decides.
#[verifier::external_body]
pub(crate) fn guessability_score(password: &str) -> (result: Result<u8, ScoreError>)
    requires
        0 < password@.len() <= spec_scorer_limit(),
    ensures
        result matches Ok(score) ==> score <= 4,
{
    match zxcvbn::zxcvbn(password, &[]) {
        Ok(estimate) => Ok(estimate.score()),
        Err(_) => Err(ScoreError::DurationOutOfRange),
    }
}

} // verus!
