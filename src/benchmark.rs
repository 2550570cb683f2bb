//! The synthetic benchmark workload: a per-character variant of the score,
//! folded with the password's UTF-8 bytes into a 64-bit digest.

use vstd::prelude::*;
use vstd::arithmetic::div_mod::{lemma_add_mod_noop, lemma_mod_sub_multiples_vanish, lemma_small_mod};
use vstd::string::StrSliceExecFns;
use vstd::utf8::encode_utf8;
use crate::score::length_points;
use crate::text::{
    contains, is_alphanumeric, is_ascii_digit, is_ascii_lower, is_ascii_upper, is_digit,
    is_lower, is_symbol, is_upper, lowercase_of, occurs_in, to_lowercase,
};

verus! {

/// The modulus of 64-bit wrapping arithmetic.
pub open spec fn word() -> int {
    0x1_0000_0000_0000_0000
}

/// How many characters of `s` satisfy `p`.
pub open spec fn tally(s: Seq<char>, p: spec_fn(char) -> bool) -> nat
    decreases s.len(),
{
    if s.len() == 0 {
        0
    } else {
        tally(s.drop_last(), p) + if p(s.last()) {
            1nat
        } else {
            0nat
        }
    }
}

pub open spec fn lower_class() -> spec_fn(char) -> bool {
    |c: char| is_lower(c)
}

pub open spec fn upper_class() -> spec_fn(char) -> bool {
    |c: char| is_upper(c)
}

pub open spec fn digit_class() -> spec_fn(char) -> bool {
    |c: char| is_digit(c)
}

pub open spec fn symbol_class() -> spec_fn(char) -> bool {
    |c: char| is_symbol(c)
}

/// The benchmark's score, given how many characters are symbols and the
/// lowercase form of the text: length points, one point per character of
/// each class, and the two penalties, both looked for in the lowercase form.
pub open spec fn points_of(s: Seq<char>, symbols: nat, lowered: Seq<char>) -> int {
    length_points(s.len()) + tally(s, lower_class()) + tally(s, upper_class()) + tally(
        s,
        digit_class(),
    ) + symbols - (if occurs_in("password"@, lowered) {
        20int
    } else {
        0int
    }) - (if occurs_in("123"@, lowered) {
        10int
    } else {
        0int
    })
}

/// The benchmark's score of `s`.
pub open spec fn tallied_points(s: Seq<char>) -> int {
    points_of(s, tally(s, symbol_class()), lowercase_of(s))
}

/// One mixing step: `h * 31 + b`, then `* 1103515245 + 12345`, modulo 2^64.
pub open spec fn mix_byte(h: u64, b: u8) -> u64 {
    ((((h as int * 31 + b as int) % word()) * 1103515245 + 12345) % word()) as u64
}

/// Mixes the bytes into `h`, first to last.
pub open spec fn mix_bytes(h: u64, bytes: Seq<u8>) -> u64
    decreases bytes.len(),
{
    if bytes.len() == 0 {
        h
    } else {
        mix_byte(mix_bytes(h, bytes.drop_last()), bytes.last())
    }
}

/// The digest of one benchmark iteration: the tallied points as a 64-bit
/// word, mixed with the UTF-8 encoding of the text.
pub open spec fn iteration_digest(s: Seq<char>) -> u64 {
    mix_bytes((tallied_points(s) % word()) as u64, encode_utf8(s))
}

/// What `iterations` rounds of the workload add up to, modulo 2^64.
pub open spec fn workload_checksum(s: Seq<char>, iterations: nat) -> u64 {
    ((iterations * iteration_digest(s)) % word()) as u64
}

proof fn lemma_wrapping_add(x: u64, y: u64)
    ensures
        x.wrapping_add(y) == ((x as int + y as int) % word()) as u64,
{
    if x + y >= word() {
        lemma_small_mod((x + y - word()) as nat, word() as nat);
        lemma_mod_sub_multiples_vanish(x + y, word());
    } else {
        lemma_small_mod((x + y) as nat, word() as nat);
    }
}

proof fn lemma_wrapping_mul_add(x: u64, k: u64, y: u64)
    ensures
        x.wrapping_mul(k).wrapping_add(y) == ((x as int * k as int + y as int) % word()) as u64,
{
    lemma_wrapping_add(x.wrapping_mul(k), y);
    lemma_small_mod(y as nat, word() as nat);
    lemma_add_mod_noop(x as int * k as int, y as int, word());
}

/// Mixes `bytes` into `seed` one byte at a time with wrapping arithmetic.
pub fn mix_hash(seed: u64, bytes: &[u8]) -> (h: u64)
    ensures
        h == mix_bytes(seed, bytes@),
{
    let mut h = seed;
    let mut i: usize = 0;
    while i < bytes.len()
        invariant
            i <= bytes@.len(),
            h == mix_bytes(seed, bytes@.take(i as int)),
        decreases bytes@.len() - i,
    {
        let b = bytes[i];
        proof {
            lemma_wrapping_mul_add(h, 31, b as u64);
            let h1 = h.wrapping_mul(31).wrapping_add(b as u64);
            lemma_wrapping_mul_add(h1, 1103515245, 12345);
            assert(bytes@.take(i + 1).drop_last() =~= bytes@.take(i as int));
        }
        h = h.wrapping_mul(31).wrapping_add(b as u64);
        h = h.wrapping_mul(1103515245).wrapping_add(12345);
        i += 1;
    }
    assert(bytes@.take(bytes@.len() as int) =~= bytes@);
    h
}

/// The benchmark's score of `password` from the two facts that need Unicode
/// tables: how many of its characters are symbols, and its lowercase form.
/// Unlike the strength score, every character of a class counts.
pub fn points_from_features(password: &str, symbols: usize, lowered: &str) -> (points: i128)
    ensures
        points as int == points_of(password@, symbols as nat, lowered@),
{
    let ghost s = password@;
    let n = password.unicode_len();
    let mut lower: usize = 0;
    let mut upper: usize = 0;
    let mut digit: usize = 0;
    for c in it: password.chars()
        invariant
            it.seq() == s,
            n == s.len(),
            lower <= it.index() && lower == tally(s.take(it.index() as int), lower_class()),
            upper <= it.index() && upper == tally(s.take(it.index() as int), upper_class()),
            digit <= it.index() && digit == tally(s.take(it.index() as int), digit_class()),
    {
        let ghost i = it.index() as int;
        assert(c == s[i]);
        assert(s.take(i + 1).drop_last() =~= s.take(i));
        if is_ascii_lower(c) {
            lower += 1;
        }
        if is_ascii_upper(c) {
            upper += 1;
        }
        if is_ascii_digit(c) {
            digit += 1;
        }
    }
    assert(s.take(s.len() as int) =~= s);
    let mut points: i128 = if n >= 8 {
        35
    } else {
        4 * n as i128
    };
    points = points + lower as i128 + upper as i128 + digit as i128 + symbols as i128;
    if contains(lowered, "password") {
        points -= 20;
    }
    if contains(lowered, "123") {
        points -= 10;
    }
    points
}

/// The benchmark's score of `password`.
pub fn benchmark_points(password: &str) -> (points: i128)
    ensures
        points as int == tallied_points(password@),
{
    let ghost s = password@;
    let n = password.unicode_len();
    let mut symbols: usize = 0;
    for c in it: password.chars()
        invariant
            it.seq() == s,
            n == s.len(),
            symbols <= it.index() && symbols == tally(s.take(it.index() as int), symbol_class()),
    {
        let ghost i = it.index() as int;
        assert(c == s[i]);
        assert(s.take(i + 1).drop_last() =~= s.take(i));
        if !is_alphanumeric(c) {
            symbols += 1;
        }
    }
    assert(s.take(s.len() as int) =~= s);
    let lowered = to_lowercase(password);
    points_from_features(password, symbols, lowered.as_str())
}

/// The digest of one benchmark iteration over `password`.
pub fn benchmark_digest(password: &str) -> (digest: u64)
    ensures
        digest == iteration_digest(password@),
{
    let points = benchmark_points(password);
    let m: i128 = 0x1_0000_0000_0000_0000;
    let wrapped: i128 = if points >= 0 {
        points % m
    } else {
        points + m
    };
    proof {
        if points < 0 {
            lemma_small_mod((points + m) as nat, m as nat);
            lemma_mod_sub_multiples_vanish(points + m, m as int);
        }
    }
    mix_hash(wrapped as u64, password.as_bytes())
}

/// Runs `iterations` rounds of the benchmark workload over `password` and
/// returns the wrapping sum of their digests, so that no round can be elided.
/// No round runs when `iterations` is zero.
pub fn benchmark_workload(password: &str, iterations: u32) -> (checksum: u64)
    ensures
        checksum == workload_checksum(password@, iterations as nat),
        iterations == 0 ==> checksum == 0,
{
    let ghost d = iteration_digest(password@) as int;
    let mut total: u64 = 0;
    proof {
        assert(0 * d == 0);
        lemma_small_mod(0, word() as nat);
    }
    for k in 0..iterations
        invariant
            total == workload_checksum(password@, k as nat),
            d == iteration_digest(password@),
    {
        let h = benchmark_digest(password);
        proof {
            lemma_wrapping_add(total, h);
            lemma_small_mod(h as nat, word() as nat);
            lemma_add_mod_noop(k * d, d, word());
            assert((k + 1) * d == k * d + d) by (nonlinear_arith);
        }
        total = total.wrapping_add(h);
    }
    total
}

/// The time between two clock readings, in milliseconds: the second minus
/// the first.
pub fn elapsed_millis(start: i64, end: i64) -> (ms: i128)
    ensures
        ms == end as int - start as int,
{
    end as i128 - start as i128
}

} // verus!
