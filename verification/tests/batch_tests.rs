use passgen::{
    generate_multiple_passwords, strength_from_score, summarize, AnalysisError,
    PasswordOptions, PasswordStrength,
};

fn letters(length: usize) -> PasswordOptions {
    PasswordOptions {
        length,
        uppercase: true,
        lowercase: true,
        numbers: false,
        special: false,
        avoid_ambiguous: false,
    }
}

fn report(password: &str, score: u8) -> PasswordStrength {
    strength_from_score(password, &letters(password.len()), score)
}

#[test]
fn summary_counts_and_sums() {
    let analysis = summarize(vec![report("abc", 1), report("defg", 2), report("hij", 4)]).unwrap();
    assert_eq!(analysis.count, 3);
    assert_eq!(analysis.total_strength_score, 7);
    assert_eq!(analysis.passwords.len(), 3);
    assert_eq!(analysis.passwords[0].password, "abc");
    assert_eq!(analysis.passwords[1].password, "defg");
    assert_eq!(analysis.passwords[2].password, "hij");
}

#[test]
fn summary_of_one_report() {
    let analysis = summarize(vec![report("abc", 3)]).unwrap();
    assert_eq!(analysis.count, 1);
    assert_eq!(analysis.total_strength_score, 3);
}

#[test]
fn summary_sums_scores_beyond_a_byte() {
    let mut reports = Vec::new();
    for _ in 0..100 {
        reports.push(report("abc", 255));
    }
    let analysis = summarize(reports).unwrap();
    assert_eq!(analysis.count, 100);
    assert_eq!(analysis.total_strength_score, 25_500);
}

#[test]
fn summary_of_nothing_is_refused() {
    assert_eq!(summarize(Vec::new()).unwrap_err(), AnalysisError::EmptyBatch);
}

#[test]
fn batch_of_zero_is_refused() {
    let result = generate_multiple_passwords(&letters(12), 0);
    assert_eq!(result.unwrap_err(), AnalysisError::EmptyBatch);
}

#[test]
fn batch_of_zero_is_refused_before_anything_else() {
    let result = generate_multiple_passwords(&letters(0), 0);
    assert_eq!(result.unwrap_err(), AnalysisError::EmptyBatch);
}

#[test]
fn batch_of_empty_passwords() {
    let analysis = generate_multiple_passwords(&letters(0), 3).unwrap();
    assert_eq!(analysis.count, 3);
    assert_eq!(analysis.total_strength_score, 0);
    for report in &analysis.passwords {
        assert_eq!(report.password, "");
        assert_eq!(report.strength_score, 0);
        assert_eq!(report.charset_size, 52);
    }
}

#[test]
fn batch_of_long_keyboard_walks_is_scored() {
    let opts = PasswordOptions {
        length: 39,
        uppercase: false,
        lowercase: true,
        numbers: false,
        special: true,
        avoid_ambiguous: false,
    };
    let analysis = generate_multiple_passwords(&opts, 20).unwrap();
    assert_eq!(analysis.count, 20);
    for report in &analysis.passwords {
        assert_eq!(report.password.len(), 39);
        assert!(report.strength_score <= 4);
    }
}

#[test]
fn batch_of_five_averages_its_reports() {
    let analysis = generate_multiple_passwords(&letters(12), 5).unwrap();
    assert_eq!(analysis.count, 5);
    assert_eq!(analysis.passwords.len(), 5);
    let mut scores: u128 = 0;
    let mut entropy = 0.0;
    for report in &analysis.passwords {
        assert_eq!(report.password.len(), 12);
        assert_eq!(report.charset_size, 52);
        assert!(report.strength_score <= 4);
        scores += report.strength_score as u128;
        entropy += report.password.len() as f64 * (report.charset_size as f64).log2();
    }
    assert_eq!(analysis.total_strength_score, scores);
    let average_score = analysis.total_strength_score as f64 / analysis.count as f64;
    assert_eq!(average_score, scores as f64 / 5.0);
    let average_entropy = entropy / analysis.count as f64;
    assert!((average_entropy - 12.0 * 52.0_f64.log2()).abs() < 1e-9);
}

#[test]
fn batch_passwords_are_generated_one_by_one() {
    let analysis = generate_multiple_passwords(&letters(24), 6).unwrap();
    for i in 0..6usize {
        for j in (i + 1)..6usize {
            assert_ne!(analysis.passwords[i].password, analysis.passwords[j].password);
        }
    }
}

#[test]
fn batch_of_fallbacks() {
    let opts = PasswordOptions {
        length: 7,
        uppercase: false,
        lowercase: false,
        numbers: false,
        special: false,
        avoid_ambiguous: true,
    };
    let analysis = generate_multiple_passwords(&opts, 2).unwrap();
    assert_eq!(analysis.count, 2);
    assert_eq!(analysis.passwords[0].password, "DefaultPwd1!");
    assert_eq!(analysis.passwords[1].password, "DefaultPwd1!");
    assert_eq!(
        analysis.total_strength_score,
        2 * analysis.passwords[0].strength_score as u128
    );
}
