//! Batches: several passwords generated and scored one after the other, and
//! what is summed over them.

use vstd::prelude::*;
use crate::generator::spec_is_generated;
use crate::options::PasswordOptions;
use crate::scorer::ScoreError;
use crate::strength::{generate_password_with_strength, spec_is_report, PasswordStrength};

verus! {

/// Why no batch was produced.
#[derive(Clone, Copy, Debug, PartialEq, Eq, Structural)]
pub enum AnalysisError {
    /// A batch of no passwords has no averages.
    EmptyBatch,
    /// The scorer gave no score for one of the passwords.
    Score(ScoreError),
}

/// The reports of a batch with what is summed over them.
///
/// The average strength score of the batch is `total_strength_score`
/// divided by `count`, which is never zero.
#[derive(Clone, Debug)]
pub struct PasswordAnalysis {
    pub passwords: Vec<PasswordStrength>,
    pub count: usize,
    /// The sum of the strength scores of all reports.
    pub total_strength_score: u128,
}

/// The sum of the strength scores of `reports`.
pub open spec fn spec_total_score(reports: Seq<PasswordStrength>) -> nat
    decreases reports.len(),
{
    if reports.len() == 0 {
        0
    } else {
        spec_total_score(reports.drop_last()) + reports.last().strength_score as nat
    }
}

/// Whether `analysis` is the summary of `reports`.
pub open spec fn spec_is_summary(analysis: PasswordAnalysis, reports: Seq<PasswordStrength>) -> bool {
    &&& analysis.passwords@ == reports
    &&& analysis.count == reports.len()
    &&& analysis.count > 0
    &&& analysis.total_strength_score == spec_total_score(reports)
}

/// Whether `report` is a report on a password generated under `opts`, with
/// a score of at most 4.
pub open spec fn spec_is_batch_report(report: PasswordStrength, opts: PasswordOptions) -> bool {
    &&& report.strength_score <= 4
    &&& spec_is_generated(opts, report.password@)
    &&& spec_is_report(report, report.password@, opts, report.strength_score)
}

/// Sums up the reports of a batch. A batch of no reports is refused.
pub fn summarize(passwords: Vec<PasswordStrength>) -> (result: Result<
    PasswordAnalysis,
    AnalysisError,
>)
    ensures
        passwords.len() == 0 ==> (result matches Err(error) && error == AnalysisError::EmptyBatch),
        passwords.len() > 0 ==> (result matches Ok(analysis) && spec_is_summary(
            analysis,
            passwords@,
        )),
{
    let count = passwords.len();
    if count == 0 {
        return Err(AnalysisError::EmptyBatch);
    }
    let mut total: u128 = 0;
    let mut i: usize = 0;
    assert(passwords@.take(0) =~= Seq::<PasswordStrength>::empty());
    while i < count
        invariant
            count == passwords.len(),
            i <= count,
            total == spec_total_score(passwords@.take(i as int)),
            total <= 255 * i,
        decreases count - i,
    {
        assert(passwords@.take(i + 1).drop_last() =~= passwords@.take(i as int));
        total += passwords[i].strength_score as u128;
        i += 1;
    }
    assert(passwords@.take(count as int) =~= passwords@);
    Ok(PasswordAnalysis { passwords, count, total_strength_score: total })
}

/// Generates and scores `count` passwords under `opts`, each on its own,
/// and sums them up.
///
/// A count of zero is refused. A batch of empty passwords, which a request
/// for no characters from a selection gives, is always produced. Otherwise
/// the scorer decides for each password: it fails where the system clock
/// is before the epoch, and the batch fails with it. Where it scores them
/// all, the batch holds `count` reports in the order of generation, each on
/// a password generated under `opts`, with the score of the part of the
/// password that `scored_part` gives.
///
/// # Panics
///
/// The scorer reads the system clock twice and panics if the clock steps
/// back between the two readings. Seeding the generator panics where the
/// operating system gives no entropy.
pub fn generate_multiple_passwords(opts: &PasswordOptions, count: usize) -> (result: Result<
    PasswordAnalysis,
    AnalysisError,
>)
    ensures
        (result matches Err(error) && error == AnalysisError::EmptyBatch) <==> count == 0,
        count > 0 && opts.spec_any_selected() && opts.length == 0 ==> result is Ok,
        result matches Ok(analysis) ==> {
            &&& analysis.count == count
            &&& analysis.passwords.len() == count
            &&& spec_is_summary(analysis, analysis.passwords@)
            &&& analysis.total_strength_score <= 4 * count
            &&& forall|i: int|
                0 <= i < count ==> spec_is_batch_report(#[trigger] analysis.passwords[i], *opts)
            &&& opts.spec_any_selected() ==> forall|i: int|
                0 <= i < count ==> (#[trigger] analysis.passwords[i]).password@.len()
                    == opts.length
        },
{
    if count == 0 {
        return Err(AnalysisError::EmptyBatch);
    }
    let mut passwords: Vec<PasswordStrength> = Vec::new();
    let mut i: usize = 0;
    while i < count
        invariant
            i <= count,
            count > 0,
            passwords.len() == i,
            forall|j: int| 0 <= j < i ==> spec_is_batch_report(#[trigger] passwords[j], *opts),
            opts.spec_any_selected() ==> forall|j: int|
                0 <= j < i ==> (#[trigger] passwords[j]).password@.len() == opts.length,
        decreases count - i,
    {
        match generate_password_with_strength(opts) {
            Ok(report) => {
                passwords.push(report);
            },
            Err(error) => {
                return Err(AnalysisError::Score(error));
            },
        }
        i += 1;
    }
    proof {
        lemma_total_score_bound(passwords@);
    }
    summarize(passwords)
}

/// The scores of a batch sum to at most 4 per report where no score is
/// above 4, so the average score lies between 0 and 4.
pub proof fn lemma_total_score_bound(reports: Seq<PasswordStrength>)
    requires
        forall|i: int| 0 <= i < reports.len() ==> (#[trigger] reports[i]).strength_score <= 4,
    ensures
        spec_total_score(reports) <= 4 * reports.len(),
    decreases reports.len(),
{
    if reports.len() > 0 {
        lemma_total_score_bound(reports.drop_last());
    }
}

} // verus!
