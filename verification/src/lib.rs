//! Password generation from character-class rules, with strength scoring.
//!
//! The generator draws one character from every effective class, fills the
//! rest from the pool of all effective classes and shuffles. The strength
//! side scores a password with a pattern-aware scorer and collects the
//! whole-number facts from which a caller derives entropy and crack time.

pub mod batch;
pub mod classes;
pub mod generator;
pub mod options;
mod random;
pub mod scorer;
pub mod strength;

pub use batch::{generate_multiple_passwords, summarize, AnalysisError, PasswordAnalysis};
pub use classes::{chars_of, contains_char, filter_ambiguous, CharacterClass};
pub use generator::{
    build_pool, effective_sets, generate_password, generate_password_with_rng,
    generation_warnings, truncate_to_string, GenerationWarning, FALLBACK_PASSWORD,
};
pub use options::{get_character_sets, get_charset_size, PasswordOptions};
pub use scorer::{scorer_limit, ScoreError};
pub use strength::{
    analyze_password_strength, crack_time_unit, generate_password_with_strength,
    score_password, scored_part, strength_advice, strength_from_score, strength_label,
    CrackTimeUnit,
    PasswordStrength, StrengthAdvice,
};
