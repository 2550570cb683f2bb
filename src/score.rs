//! The password score, its qualitative label and the entropy estimate.

use vstd::prelude::*;
use vstd::string::StrSliceExecFns;
use crate::text::{
    contains, is_alphanumeric, is_ascii_digit, is_ascii_lower, is_ascii_upper,
    is_digit, is_lower, is_symbol, is_upper, lowercase_of, occurs_in, to_lowercase,
};

verus! {

/// Points for length: four per character below eight characters, a flat 35 from eight on.
pub open spec fn length_points(n: nat) -> int {
    if n >= 8 {
        35
    } else {
        4 * n as int
    }
}

/// Ten points for a character class that is present, none otherwise.
pub open spec fn bonus(present: bool) -> int {
    if present {
        10
    } else {
        0
    }
}

pub open spec fn has_lower(s: Seq<char>) -> bool {
    exists|i: int| 0 <= i < s.len() && is_lower(#[trigger] s[i])
}

pub open spec fn has_upper(s: Seq<char>) -> bool {
    exists|i: int| 0 <= i < s.len() && is_upper(#[trigger] s[i])
}

pub open spec fn has_digit(s: Seq<char>) -> bool {
    exists|i: int| 0 <= i < s.len() && is_digit(#[trigger] s[i])
}

pub open spec fn has_symbol(s: Seq<char>) -> bool {
    exists|i: int| 0 <= i < s.len() && is_symbol(#[trigger] s[i])
}

/// The score before clamping, given whether the text holds a symbol and the
/// text's lowercase form.
pub open spec fn raw_score(s: Seq<char>, symbol: bool, lowered: Seq<char>) -> int {
    length_points(s.len()) + bonus(has_lower(s)) + bonus(has_upper(s)) + bonus(has_digit(s))
        + bonus(symbol) - (if occurs_in("password"@, lowered) {
        20int
    } else {
        0int
    }) - (if occurs_in("123"@, s) {
        10int
    } else {
        0int
    })
}

pub open spec fn clamp_score(x: int) -> int {
    if x < 0 {
        0
    } else if x > 100 {
        100
    } else {
        x
    }
}

/// The score of `s`, given whether it holds a symbol and its lowercase form.
pub open spec fn score_of(s: Seq<char>, symbol: bool, lowered: Seq<char>) -> int {
    if s.len() == 0 {
        0
    } else {
        clamp_score(raw_score(s, symbol, lowered))
    }
}

/// The strength score of a password.
pub open spec fn password_score(s: Seq<char>) -> int {
    score_of(s, has_symbol(s), lowercase_of(s))
}

/// Scores `password` from the two facts that need Unicode tables: whether it
/// holds a character that is not alphanumeric, and its lowercase form.
pub fn score_from_features(password: &str, symbol: bool, lowered: &str) -> (score: i32)
    ensures
        score as int == score_of(password@, symbol, lowered@),
        0 <= score <= 100,
{
    if password.is_empty() {
        return 0;
    }
    let ghost s = password@;
    let mut count: usize = 0;
    let mut lower = false;
    let mut upper = false;
    let mut digit = false;
    for c in it: password.chars()
        invariant
            it.seq() == s,
            count as int == if it.index() < 8 {
                it.index() as int
            } else {
                8
            },
            lower == exists|j: int| 0 <= j < it.index() && is_lower(#[trigger] s[j]),
            upper == exists|j: int| 0 <= j < it.index() && is_upper(#[trigger] s[j]),
            digit == exists|j: int| 0 <= j < it.index() && is_digit(#[trigger] s[j]),
    {
        assert(c == s[it.index() as int]);
        if count < 8 {
            count += 1;
        }
        if is_ascii_lower(c) {
            lower = true;
        }
        if is_ascii_upper(c) {
            upper = true;
        }
        if is_ascii_digit(c) {
            digit = true;
        }
    }
    let mut score: i32 = if count >= 8 {
        35
    } else {
        4 * count as i32
    };
    if lower {
        score += 10;
    }
    if upper {
        score += 10;
    }
    if digit {
        score += 10;
    }
    if symbol {
        score += 10;
    }
    if contains(lowered, "password") {
        score -= 20;
    }
    if contains(password, "123") {
        score -= 10;
    }
    if score < 0 {
        0
    } else if score > 100 {
        100
    } else {
        score
    }
}

/// The strength score of `password`, from 0 to 100.
pub fn analyze_password_score(password: String) -> (score: i32)
    ensures
        score as int == password_score(password@),
        0 <= score <= 100,
        password@.len() == 0 ==> score == 0,
{
    let text = password.as_str();
    if text.is_empty() {
        return 0;
    }
    let ghost s = text@;
    let mut symbol = false;
    for c in it: text.chars()
        invariant
            it.seq() == s,
            symbol == exists|j: int| 0 <= j < it.index() && is_symbol(#[trigger] s[j]),
    {
        assert(c == s[it.index() as int]);
        if !is_alphanumeric(c) {
            symbol = true;
        }
    }
    let lowered = to_lowercase(text);
    score_from_features(text, symbol, lowered.as_str())
}

/// The label of a score: half-open bands at 30, 50, 70 and 85.
pub open spec fn strength_label(score: int) -> Seq<char> {
    if score < 30 {
        "Very Weak"@
    } else if score < 50 {
        "Weak"@
    } else if score < 70 {
        "Fair"@
    } else if score < 85 {
        "Strong"@
    } else {
        "Very Strong"@
    }
}

/// The qualitative label of any score.
pub fn get_strength_level(score: i32) -> (label: String)
    ensures
        label@ == strength_label(score as int),
{
    if score < 30 {
        "Very Weak".to_string()
    } else if score < 50 {
        "Weak".to_string()
    } else if score < 70 {
        "Fair".to_string()
    } else if score < 85 {
        "Strong".to_string()
    } else {
        "Very Strong".to_string()
    }
}

/// The entropy estimate in bits: four per character.
pub open spec fn entropy_bits(s: Seq<char>) -> int {
    4 * s.len() as int
}

/// The entropy estimate of `password`, four bits per character.
pub fn calculate_entropy(password: String) -> (bits: u128)
    ensures
        bits as int == entropy_bits(password@),
{
    let n = password.as_str().unicode_len();
    4 * n as u128
}

/// Scoring, labelling and estimating entropy keep no state: equal inputs give
/// equal results, however often they are asked for.
pub proof fn results_depend_on_input_alone(a: Seq<char>, b: Seq<char>, x: int, y: int)
    requires
        a == b,
        x == y,
    ensures
        password_score(a) == password_score(b),
        strength_label(x) == strength_label(y),
        entropy_bits(a) == entropy_bits(b),
{
}

/// Every score lies between 0 and 100.
pub proof fn score_is_bounded(s: Seq<char>)
    ensures
        0 <= password_score(s) <= 100,
{
}

} // verus!
