use passgen::{
    build_pool, effective_sets, generate_password, generate_password_with_rng,
    generation_warnings, truncate_to_string, GenerationWarning, PasswordOptions,
    FALLBACK_PASSWORD,
};
use rand::rngs::StdRng;
use rand::SeedableRng;

const UPPER: &str = "ABCDEFGHIJKLMNOPQRSTUVWXYZ";
const LOWER: &str = "abcdefghijklmnopqrstuvwxyz";
const DIGITS: &str = "0123456789";
const SPECIAL: &str = "!@#$%^&*()-=_+[]{}|;:,.<>?";

fn options(
    length: usize,
    uppercase: bool,
    lowercase: bool,
    numbers: bool,
    special: bool,
    avoid_ambiguous: bool,
) -> PasswordOptions {
    PasswordOptions { length, uppercase, lowercase, numbers, special, avoid_ambiguous }
}

fn seeded(opts: &PasswordOptions, seed: u64) -> String {
    let mut rng = StdRng::seed_from_u64(seed);
    generate_password_with_rng(opts, &mut rng)
}

fn class_of(c: char) -> usize {
    if UPPER.contains(c) {
        0
    } else if LOWER.contains(c) {
        1
    } else if DIGITS.contains(c) {
        2
    } else if SPECIAL.contains(c) {
        3
    } else {
        panic!("{:?} belongs to no class", c)
    }
}

#[test]
fn default_options_select_nothing() {
    let opts = PasswordOptions::default();
    assert_eq!(opts.length, 0);
    assert!(!opts.uppercase && !opts.lowercase && !opts.numbers && !opts.special);
    assert!(!opts.avoid_ambiguous);
    assert_eq!(generate_password(&opts), "DefaultPwd1!");
}

#[test]
fn options_from_ticked_places() {
    let opts = PasswordOptions::from_selection(20, &vec![2, 0], true);
    assert_eq!(opts.length, 20);
    assert!(opts.uppercase && !opts.lowercase && opts.numbers && !opts.special);
    assert!(opts.avoid_ambiguous);
    let all = PasswordOptions::from_selection(8, &vec![0, 1, 2, 3], false);
    assert!(all.uppercase && all.lowercase && all.numbers && all.special);
    assert!(!all.avoid_ambiguous);
    let none = PasswordOptions::from_selection(8, &vec![4, 17], false);
    assert!(!none.uppercase && !none.lowercase && !none.numbers && !none.special);
    let empty = PasswordOptions::from_selection(8, &Vec::new(), false);
    assert!(!empty.uppercase && !empty.lowercase && !empty.numbers && !empty.special);
}

#[test]
fn all_classes_stand_in_for_none() {
    let filled = options(9, false, false, false, false, true).or_all_classes();
    assert_eq!(filled.length, 9);
    assert!(filled.uppercase && filled.lowercase && filled.numbers && filled.special);
    assert!(filled.avoid_ambiguous);
    let kept = options(9, false, true, false, false, false).or_all_classes();
    assert!(!kept.uppercase && kept.lowercase && !kept.numbers && !kept.special);
    assert_eq!(kept.length, 9);
}

#[test]
fn same_seed_gives_same_password() {
    let opts = options(40, true, true, true, true, false);
    for seed in 0..20u64 {
        assert_eq!(seeded(&opts, seed), seeded(&opts, seed));
    }
}

#[test]
fn draws_vary_with_the_seed() {
    let opts = options(40, true, true, true, true, false);
    let first = seeded(&opts, 1);
    let mut differing: usize = 0;
    for seed in 2..22u64 {
        if seeded(&opts, seed) != first {
            differing += 1;
        }
    }
    assert_eq!(differing, 20);
}

#[test]
fn fresh_generator_is_seeded_anew() {
    let opts = options(32, true, true, true, true, false);
    assert_ne!(generate_password(&opts), generate_password(&opts));
}

#[test]
fn length_and_pool_hold_for_every_seed() {
    let allowed = format!("{}{}{}", "ABCDEFGHJKLMNPQRSTUVWXYZ", "23456789", SPECIAL);
    for length in [0usize, 1, 2, 3, 4, 17, 64] {
        let opts = options(length, true, false, true, true, true);
        for seed in 0..50u64 {
            let pwd = seeded(&opts, seed);
            assert_eq!(pwd.chars().count(), length);
            assert!(pwd.chars().all(|c| allowed.contains(c)), "{:?}", pwd);
        }
    }
}

#[test]
fn uppercase_alone_stays_in_a_to_z() {
    let opts = options(200, true, false, false, false, false);
    for seed in 0..20u64 {
        let pwd = seeded(&opts, seed);
        assert!(pwd.chars().all(|c| ('A'..='Z').contains(&c)));
    }
    let strict = options(200, true, false, false, false, true);
    for seed in 0..20u64 {
        let pwd = seeded(&strict, seed);
        assert!(pwd.chars().all(|c| ('A'..='Z').contains(&c)));
        assert!(!pwd.contains('I') && !pwd.contains('O'));
    }
}

#[test]
fn lowercase_alone_stays_in_a_to_z() {
    let opts = options(200, false, true, false, false, false);
    let strict = options(200, false, true, false, false, true);
    for seed in 0..20u64 {
        assert!(seeded(&opts, seed).chars().all(|c| ('a'..='z').contains(&c)));
        let pwd = seeded(&strict, seed);
        assert!(pwd.chars().all(|c| ('a'..='z').contains(&c)));
        assert!(!pwd.contains('l'));
    }
}

#[test]
fn numbers_alone_stay_in_digits() {
    let opts = options(200, false, false, true, false, false);
    let strict = options(200, false, false, true, false, true);
    for seed in 0..20u64 {
        assert!(seeded(&opts, seed).chars().all(|c| c.is_ascii_digit()));
        let pwd = seeded(&strict, seed);
        assert!(pwd.chars().all(|c| ('2'..='9').contains(&c)));
    }
}

#[test]
fn unfiltered_alphabet_does_use_the_ambiguous() {
    let opts = options(400, false, false, true, false, false);
    let pwd = seeded(&opts, 3);
    assert!(pwd.contains('0') && pwd.contains('1'));
}

#[test]
fn every_class_is_present_when_length_allows() {
    for length in [4usize, 5, 8, 30] {
        let opts = options(length, true, true, true, true, true);
        for seed in 0..300u64 {
            let pwd = seeded(&opts, seed);
            let mut seen = [false; 4];
            for c in pwd.chars() {
                seen[class_of(c)] = true;
            }
            assert_eq!(seen, [true; 4], "{:?}", pwd);
        }
    }
}

#[test]
fn two_classes_are_both_present_in_two_characters() {
    let opts = options(2, false, true, true, false, false);
    for seed in 0..100u64 {
        let pwd = seeded(&opts, seed);
        assert!(pwd.chars().any(|c| c.is_ascii_lowercase()), "{:?}", pwd);
        assert!(pwd.chars().any(|c| c.is_ascii_digit()), "{:?}", pwd);
    }
}

#[test]
fn short_length_keeps_one_character_per_class_at_most() {
    for length in [1usize, 2, 3] {
        let opts = options(length, true, true, true, true, false);
        for seed in 0..200u64 {
            let pwd = seeded(&opts, seed);
            assert_eq!(pwd.len(), length);
            let mut seen = [0usize; 4];
            for c in pwd.chars() {
                seen[class_of(c)] += 1;
            }
            assert!(seen.iter().all(|n| *n <= 1), "{:?}", pwd);
        }
    }
}

#[test]
fn short_length_does_not_favour_a_class() {
    let opts = options(1, true, true, true, true, false);
    let mut seen = [false; 4];
    for seed in 0..200u64 {
        let pwd = seeded(&opts, seed);
        seen[class_of(pwd.chars().next().unwrap())] = true;
    }
    assert_eq!(seen, [true; 4]);
}

#[test]
fn shuffle_moves_the_guaranteed_characters() {
    let opts = options(4, true, true, true, true, false);
    let mut out_of_class_order: usize = 0;
    for seed in 0..64u64 {
        let pwd = seeded(&opts, seed);
        let order: Vec<usize> = pwd.chars().map(class_of).collect();
        if order != vec![0, 1, 2, 3] {
            out_of_class_order += 1;
        }
    }
    assert!(out_of_class_order > 32, "{}", out_of_class_order);
}

#[test]
fn fallback_whatever_the_length() {
    for length in [0usize, 1, 12, 500] {
        for avoid_ambiguous in [false, true] {
            let opts = options(length, false, false, false, false, avoid_ambiguous);
            assert_eq!(generate_password(&opts), "DefaultPwd1!");
            assert_eq!(seeded(&opts, 9), FALLBACK_PASSWORD);
        }
    }
}

#[test]
fn zero_length_is_empty_for_every_selection() {
    for mask in 1..16u32 {
        let opts = options(0, mask & 1 != 0, mask & 2 != 0, mask & 4 != 0, mask & 8 != 0, true);
        assert_eq!(generate_password(&opts), "");
    }
}

#[test]
fn no_warning_for_an_ordinary_request() {
    let opts = options(16, true, true, true, true, false);
    assert_eq!(generation_warnings(&opts), Vec::<GenerationWarning>::new());
    let exact = options(4, true, true, true, true, true);
    assert_eq!(generation_warnings(&exact), Vec::<GenerationWarning>::new());
}

#[test]
fn warning_when_nothing_is_selected() {
    for length in [0usize, 16] {
        let opts = options(length, false, false, false, false, false);
        assert_eq!(generation_warnings(&opts), vec![GenerationWarning::NoCharacterSets]);
    }
}

#[test]
fn warning_when_length_is_below_class_count() {
    let opts = options(2, true, true, true, true, false);
    assert_eq!(generation_warnings(&opts), vec![GenerationWarning::LengthBelowClassCount]);
    let three = options(2, true, true, false, true, false);
    assert_eq!(generation_warnings(&three), vec![GenerationWarning::LengthBelowClassCount]);
    let two = options(2, true, true, false, false, false);
    assert_eq!(generation_warnings(&two), Vec::<GenerationWarning>::new());
}

#[test]
fn no_warning_for_zero_length_with_a_selection() {
    let opts = options(0, true, true, true, true, false);
    assert_eq!(generation_warnings(&opts), Vec::<GenerationWarning>::new());
}

#[test]
fn warning_messages() {
    assert_eq!(
        GenerationWarning::NoCharacterSets.message(),
        "Warning: No character sets selected or available after filtering. Returning a default password."
    );
    assert_eq!(
        GenerationWarning::LengthBelowClassCount.message(),
        "Warning: Password length is shorter than the number of selected character types; some types may be omitted."
    );
}

#[test]
fn effective_sets_follow_class_order() {
    let opts = options(8, true, false, true, false, true);
    let sets = effective_sets(&opts);
    assert_eq!(sets.len(), 2);
    assert_eq!(sets[0].iter().collect::<String>(), "ABCDEFGHJKLMNPQRSTUVWXYZ");
    assert_eq!(sets[1].iter().collect::<String>(), "23456789");
    let all = effective_sets(&options(8, true, true, true, true, false));
    assert_eq!(all.len(), 4);
    assert_eq!(all[1].iter().collect::<String>(), LOWER);
    assert_eq!(all[3].iter().collect::<String>(), SPECIAL);
    assert!(effective_sets(&options(8, false, false, false, false, false)).is_empty());
}

#[test]
fn pool_is_the_sets_in_a_row() {
    let sets = vec![vec!['a', 'b'], vec![], vec!['b', 'c', 'd']];
    assert_eq!(build_pool(&sets), vec!['a', 'b', 'b', 'c', 'd']);
    assert_eq!(build_pool(&Vec::new()), Vec::<char>::new());
    let opts = options(8, false, true, true, false, false);
    let pool: String = build_pool(&effective_sets(&opts)).into_iter().collect();
    assert_eq!(pool, format!("{}{}", LOWER, DIGITS));
}

#[test]
fn truncation_keeps_the_front() {
    assert_eq!(truncate_to_string(vec!['a', 'b', 'c'], 2), "ab");
    assert_eq!(truncate_to_string(vec!['a', 'b', 'c'], 3), "abc");
    assert_eq!(truncate_to_string(vec!['a', 'b', 'c'], 7), "abc");
    assert_eq!(truncate_to_string(vec!['a', 'b', 'c'], 0), "");
    assert_eq!(truncate_to_string(Vec::new(), 4), "");
}
