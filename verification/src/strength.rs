//! Strength reports: the score of a password, its label, and the
//! whole-number facts that entropy and crack time are derived from.

use vstd::prelude::*;
use crate::classes::chars_of;
use crate::generator::{
    generate_password, spec_is_generated, truncate_to_string, FALLBACK_PASSWORD,
};
use crate::options::{
    get_character_sets, get_charset_size, spec_character_sets, spec_charset_size,
    PasswordOptions,
};
use crate::scorer::{guessability_score, scorer_limit, spec_scorer_limit, ScoreError};

verus! {

/// What is known of one password.
///
/// The entropy of the password in bits is the length of `password` in
/// bytes times the binary logarithm of `charset_size`, and zero where
/// `charset_size` is at most one.
#[derive(Clone, Debug)]
pub struct PasswordStrength {
    pub password: String,
    /// The number of characters that the options offer, from which entropy
    /// is computed. It follows the options, not the password.
    pub charset_size: usize,
    /// 0 (very weak) to 4 (very strong).
    pub strength_score: u8,
    pub strength_label: String,
    /// The names of the selected classes.
    pub character_sets: Vec<String>,
}

/// The label that goes with a score.
pub open spec fn spec_strength_label(score: u8) -> Seq<char> {
    if score == 0 {
        "Very Weak"@
    } else if score == 1 {
        "Weak"@
    } else if score == 2 {
        "Good"@
    } else if score == 3 {
        "Strong"@
    } else if score == 4 {
        "Very Strong"@
    } else {
        "Unknown"@
    }
}

/// The label that goes with a score. A score above 4 is labelled unknown.
pub fn strength_label(score: u8) -> (label: String)
    ensures
        label@ == spec_strength_label(score),
{
    match score {
        0 => "Very Weak".to_string(),
        1 => "Weak".to_string(),
        2 => "Good".to_string(),
        3 => "Strong".to_string(),
        4 => "Very Strong".to_string(),
        _ => "Unknown".to_string(),
    }
}

/// Whether `report` is the report on `password` under `opts` with `score`.
pub open spec fn spec_is_report(
    report: PasswordStrength,
    password: Seq<char>,
    opts: PasswordOptions,
    score: u8,
) -> bool {
    &&& report.password@ == password
    &&& report.charset_size == spec_charset_size(opts)
    &&& report.strength_score == score
    &&& report.strength_label@ == spec_strength_label(score)
    &&& report.character_sets.deep_view() == spec_character_sets(opts)
}

/// The report on `password` under `opts`, given the score of the password.
pub fn strength_from_score(password: &str, opts: &PasswordOptions, score: u8) -> (report:
    PasswordStrength)
    ensures
        spec_is_report(report, password@, *opts, score),
{
    PasswordStrength {
        password: password.to_string(),
        charset_size: get_charset_size(opts),
        strength_score: score,
        strength_label: strength_label(score),
        character_sets: get_character_sets(opts),
    }
}

/// The part of a password that is scored: the whole password where it has
/// no more characters than the scorer takes, and otherwise the characters
/// it begins with, as many as the scorer takes.
pub open spec fn spec_scored_part(password: Seq<char>) -> Seq<char> {
    if password.len() <= spec_scorer_limit() {
        password
    } else {
        password.take(spec_scorer_limit() as int)
    }
}

/// The part of `password` that is scored.
pub fn scored_part(password: &str) -> (part: String)
    ensures
        part@ == spec_scored_part(password@),
{
    let chars = chars_of(password);
    proof {
        assert(chars@.take(chars@.len() as int) =~= chars@);
    }
    truncate_to_string(chars, scorer_limit())
}

/// The guessability score of `password`, from 0 to 4.
///
/// An empty password has the lowest score: there is nothing to guess, and
/// the scorer does not take it. Of any other password the scorer is handed
/// `scored_part(password)`, so a long password is scored by what it begins
/// with and by nothing that follows. The scorer then decides: it gives its
/// score, or it fails where the system clock is before the epoch.
///
/// # Panics
///
/// The scorer reads the system clock twice and panics if the clock steps
/// back between the two readings.
pub fn score_password(password: &str) -> (result: Result<u8, ScoreError>)
    ensures
        password@.len() == 0 ==> (result matches Ok(score) && score == 0),
        result matches Ok(score) ==> score <= 4,
{
    if password.is_empty() {
        Ok(0)
    } else {
        let part = scored_part(password);
        guessability_score(part.as_str())
    }
}

/// Scores `password` and reports on it under `opts`.
///
/// An empty password is always reported on, with the lowest score. For any
/// other password the scorer decides whether there is a report: it fails
/// where the system clock is before the epoch. What the report then holds
/// is what `strength_from_score` gives for the score, and the score is that
/// of `scored_part(password)`: a long password is scored by what it begins
/// with. The report holds the whole password all the same.
///
/// # Panics
///
/// The scorer reads the system clock twice and panics if the clock steps
/// back between the two readings.
pub fn analyze_password_strength(password: &str, opts: &PasswordOptions) -> (result: Result<
    PasswordStrength,
    ScoreError,
>)
    ensures
        password@.len() == 0 ==> (result matches Ok(report) && report.strength_score == 0),
        result matches Ok(report) ==> report.strength_score <= 4 && spec_is_report(
            report,
            password@,
            *opts,
            report.strength_score,
        ),
{
    match score_password(password) {
        Ok(score) => Ok(strength_from_score(password, opts, score)),
        Err(error) => Err(error),
    }
}

/// Generates a password under `opts` and reports on it.
///
/// A request for no characters from a selection is always reported on: the
/// password is empty and has the lowest score. For any other request the
/// scorer decides whether there is a report: it fails where the system
/// clock is before the epoch. The score is that of the part of the password
/// that `scored_part` gives.
///
/// # Panics
///
/// The scorer reads the system clock twice and panics if the clock steps
/// back between the two readings. Seeding the generator panics where the
/// operating system gives no entropy.
pub fn generate_password_with_strength(opts: &PasswordOptions) -> (result: Result<
    PasswordStrength,
    ScoreError,
>)
    ensures
        opts.spec_any_selected() && opts.length == 0 ==> (result matches Ok(report)
            && report.strength_score == 0),
        result matches Ok(report) ==> report.strength_score <= 4 && spec_is_generated(
            *opts,
            report.password@,
        ) && spec_is_report(report, report.password@, *opts, report.strength_score),
        result matches Ok(report) ==> (opts.spec_any_selected() ==> report.password@.len()
            == opts.length),
        result matches Ok(report) ==> (!opts.spec_any_selected() ==> report.password@
            == FALLBACK_PASSWORD@),
{
    let password = generate_password(opts);
    analyze_password_strength(password.as_str(), opts)
}

/// What to tell the holder of a password with a given score.
#[derive(Clone, Copy, Debug, PartialEq, Eq, Structural)]
pub enum StrengthAdvice {
    /// Not to be used for sensitive accounts.
    Weak,
    Moderate,
    Good,
    Excellent,
}

/// The advice that goes with a score: none above 4.
pub open spec fn spec_strength_advice(score: u8) -> Option<StrengthAdvice> {
    if score <= 1 {
        Some(StrengthAdvice::Weak)
    } else if score == 2 {
        Some(StrengthAdvice::Moderate)
    } else if score == 3 {
        Some(StrengthAdvice::Good)
    } else if score == 4 {
        Some(StrengthAdvice::Excellent)
    } else {
        None
    }
}

/// The advice that goes with a score.
pub fn strength_advice(score: u8) -> (advice: Option<StrengthAdvice>)
    ensures
        advice == spec_strength_advice(score),
{
    match score {
        0 | 1 => Some(StrengthAdvice::Weak),
        2 => Some(StrengthAdvice::Moderate),
        3 => Some(StrengthAdvice::Good),
        4 => Some(StrengthAdvice::Excellent),
        _ => None,
    }
}

/// The unit in which a crack time is shown.
#[derive(Clone, Copy, Debug, PartialEq, Eq, Structural)]
pub enum CrackTimeUnit {
    Seconds,
    Minutes,
    Hours,
    Days,
    /// Years of 365 days.
    Years,
}

impl CrackTimeUnit {
    /// The length of the unit in seconds.
    pub open spec fn spec_seconds(self) -> nat {
        match self {
            CrackTimeUnit::Seconds => 1,
            CrackTimeUnit::Minutes => 60,
            CrackTimeUnit::Hours => 3_600,
            CrackTimeUnit::Days => 86_400,
            CrackTimeUnit::Years => 31_536_000,
        }
    }

    /// The word for the unit, in the plural.
    pub open spec fn spec_name(self) -> Seq<char> {
        match self {
            CrackTimeUnit::Seconds => "seconds"@,
            CrackTimeUnit::Minutes => "minutes"@,
            CrackTimeUnit::Hours => "hours"@,
            CrackTimeUnit::Days => "days"@,
            CrackTimeUnit::Years => "years"@,
        }
    }

    pub fn seconds(self) -> (seconds: u64)
        ensures
            seconds == self.spec_seconds(),
    {
        match self {
            CrackTimeUnit::Seconds => 1,
            CrackTimeUnit::Minutes => 60,
            CrackTimeUnit::Hours => 3_600,
            CrackTimeUnit::Days => 86_400,
            CrackTimeUnit::Years => 31_536_000,
        }
    }

    pub fn name(self) -> (name: String)
        ensures
            name@ == self.spec_name(),
    {
        match self {
            CrackTimeUnit::Seconds => "seconds".to_string(),
            CrackTimeUnit::Minutes => "minutes".to_string(),
            CrackTimeUnit::Hours => "hours".to_string(),
            CrackTimeUnit::Days => "days".to_string(),
            CrackTimeUnit::Years => "years".to_string(),
        }
    }
}

/// The unit in which a crack time of `whole_seconds` full seconds is shown,
/// and none for less than a second. A time is shown in the unit of its
/// bucket and never carried into the next: sixty minutes are not an hour
/// until the time itself reaches an hour.
pub open spec fn spec_crack_time_unit(whole_seconds: nat) -> Option<CrackTimeUnit> {
    if whole_seconds < 1 {
        None
    } else if whole_seconds < 60 {
        Some(CrackTimeUnit::Seconds)
    } else if whole_seconds < 3_600 {
        Some(CrackTimeUnit::Minutes)
    } else if whole_seconds < 86_400 {
        Some(CrackTimeUnit::Hours)
    } else if whole_seconds < 31_536_000 {
        Some(CrackTimeUnit::Days)
    } else {
        Some(CrackTimeUnit::Years)
    }
}

/// Chooses the unit for a crack time from its full seconds.
pub fn crack_time_unit(whole_seconds: u64) -> (unit: Option<CrackTimeUnit>)
    ensures
        unit == spec_crack_time_unit(whole_seconds as nat),
{
    if whole_seconds < 1 {
        None
    } else if whole_seconds < 60 {
        Some(CrackTimeUnit::Seconds)
    } else if whole_seconds < 3_600 {
        Some(CrackTimeUnit::Minutes)
    } else if whole_seconds < 86_400 {
        Some(CrackTimeUnit::Hours)
    } else if whole_seconds < 31_536_000 {
        Some(CrackTimeUnit::Days)
    } else {
        Some(CrackTimeUnit::Years)
    }
}

/// The unit chosen for a time is the largest that the time fills at least
/// once, and no unit is chosen exactly when the time fills none.
pub proof fn lemma_crack_time_unit_is_largest(whole_seconds: nat, other: CrackTimeUnit)
    ensures
        spec_crack_time_unit(whole_seconds) is None <==> whole_seconds < 1,
        spec_crack_time_unit(whole_seconds) matches Some(unit) ==> unit.spec_seconds()
            <= whole_seconds && (other.spec_seconds() <= whole_seconds ==> other.spec_seconds()
            <= unit.spec_seconds()),
{
}

} // verus!
