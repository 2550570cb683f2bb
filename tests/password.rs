use wasm_password::benchmark::{
    benchmark_digest, benchmark_points, benchmark_workload, elapsed_millis, mix_hash,
    points_from_features,
};
use wasm_password::score::{
    analyze_password_score, calculate_entropy, get_strength_level, score_from_features,
};

fn score(s: &str) -> i32 {
    analyze_password_score(s.to_string())
}

#[test]
fn empty_password_scores_zero() {
    assert_eq!(score(""), 0);
}

#[test]
fn score_stays_within_bounds() {
    let samples = [
        "", "a", "A", "1", "!", "abc", "123", "password", "PASSWORD123", "Password123!",
        "aA1!aA1!aA1!", "ééééé", "日本語のパスワード", "        ", "password123password123",
        "Zz9#Zz9#Zz9#Zz9#Zz9#",
    ];
    for s in samples {
        let r = score(s);
        assert!((0..=100).contains(&r), "{} scored {}", s, r);
    }
}

#[test]
fn password123_scores_35() {
    assert_eq!(score("Password123"), 35);
}

#[test]
fn abc_scores_22() {
    assert_eq!(score("abc"), 22);
}

#[test]
fn uppercase_eight_scores_45() {
    assert_eq!(score("ABCDEFGH"), 45);
}

#[test]
fn length_seven_and_eight() {
    assert_eq!(score("abcdefg"), 28 + 10);
    assert_eq!(score("abcdefgh"), 35 + 10);
}

#[test]
fn symbol_bonus_counts_once() {
    assert_eq!(score("a!"), 8 + 10 + 10);
    assert_eq!(score("a!!!"), 16 + 10 + 10);
}

#[test]
fn unicode_letters_are_not_symbols() {
    assert_eq!(score("éé"), 8);
    assert_eq!(score("é!"), 8 + 10);
}

#[test]
fn password_penalty_ignores_case() {
    assert_eq!(score("PASSWORD"), 35 + 10 - 20);
    assert_eq!(score("xPaSsWoRdx"), 35 + 10 + 10 - 20);
}

#[test]
fn digits_penalty_is_case_sensitive_match() {
    assert_eq!(score("a123"), 16 + 10 + 10 - 10);
    assert_eq!(score("a132"), 16 + 10 + 10);
}

#[test]
fn score_from_features_uses_given_facts() {
    assert_eq!(score_from_features("abc", false, "abc"), 22);
    assert_eq!(score_from_features("abc", true, "abc"), 32);
    assert_eq!(score_from_features("abc", false, "password"), 2);
    assert_eq!(score_from_features("", true, "password"), 0);
    assert_eq!(score_from_features("12", false, "password"), 0);
}

#[test]
fn strength_label_boundaries() {
    assert_eq!(get_strength_level(0), "Very Weak");
    assert_eq!(get_strength_level(29), "Very Weak");
    assert_eq!(get_strength_level(30), "Weak");
    assert_eq!(get_strength_level(49), "Weak");
    assert_eq!(get_strength_level(50), "Fair");
    assert_eq!(get_strength_level(69), "Fair");
    assert_eq!(get_strength_level(70), "Strong");
    assert_eq!(get_strength_level(84), "Strong");
    assert_eq!(get_strength_level(85), "Very Strong");
}

#[test]
fn strength_label_outside_score_range() {
    assert_eq!(get_strength_level(-5), "Very Weak");
    assert_eq!(get_strength_level(i32::MIN), "Very Weak");
    assert_eq!(get_strength_level(1000), "Very Strong");
}

#[test]
fn entropy_is_four_bits_per_character() {
    assert_eq!(calculate_entropy(String::new()), 0);
    assert_eq!(calculate_entropy("abcd".to_string()), 16);
    assert_eq!(calculate_entropy("Password123".to_string()), 44);
    assert_eq!(calculate_entropy("héllo".to_string()), 20);
}

#[test]
fn repeated_calls_agree() {
    for s in ["", "abc", "Password123", "日本"] {
        assert_eq!(score(s), score(s));
        assert_eq!(calculate_entropy(s.to_string()), calculate_entropy(s.to_string()));
    }
    for n in [-1, 0, 30, 85, 200] {
        assert_eq!(get_strength_level(n), get_strength_level(n));
    }
}

#[test]
fn benchmark_points_count_every_character() {
    // The benchmark tallies each character of a class, where the score
    // grants each class once: the two differ on purpose.
    assert_eq!(benchmark_points("abc"), 12 + 3);
    assert_eq!(score("abc"), 22);
    assert_eq!(benchmark_points("Password123"), 16);
    assert_eq!(benchmark_points("a!!"), 12 + 1 + 2);
    assert_eq!(benchmark_points(""), 0);
}

#[test]
fn benchmark_points_match_123_in_lowercase_form() {
    assert_eq!(points_from_features("ab", 0, "ab123"), 8 + 2 - 10);
    assert_eq!(points_from_features("ab", 0, "password"), 8 + 2 - 20);
    assert_eq!(points_from_features("ab", 3, "ab"), 8 + 2 + 3);
}

#[test]
fn mix_hash_known_values() {
    assert_eq!(mix_hash(0, &[]), 0);
    assert_eq!(mix_hash(7, &[]), 7);
    assert_eq!(mix_hash(0, &[1]), 1103527590);
    assert_eq!(mix_hash(5, &[2]), 173251905810);
}

#[test]
fn benchmark_digest_known_values() {
    assert_eq!(benchmark_digest("a"), 278085854085);
    assert_eq!(benchmark_digest("Password123"), 8492196151321090524);
}

#[test]
fn benchmark_with_no_iterations_does_nothing() {
    assert_eq!(benchmark_workload("Password123", 0), 0);
    assert_eq!(benchmark_workload("", 0), 0);
}

#[test]
fn benchmark_sums_digests() {
    assert_eq!(benchmark_workload("a", 1), 278085854085);
    assert_eq!(benchmark_workload("a", 3), 834257562255);
    assert_eq!(benchmark_workload("Password123", 2), 16984392302642181048);
}

#[test]
fn elapsed_time_is_end_minus_start() {
    assert_eq!(elapsed_millis(10, 25), 15);
    assert_eq!(elapsed_millis(25, 25), 0);
    assert_eq!(elapsed_millis(25, 10), -15);
    assert_eq!(elapsed_millis(i64::MIN, i64::MAX), u64::MAX as i128);
}
