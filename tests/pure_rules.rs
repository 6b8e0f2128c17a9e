use cardquest::calendar::{
    day_number_from_timestamp, hour_and_dow_and_day, is_evening, is_morning, is_weekend,
    MICROS_PER_DAY, MICROS_PER_HOUR,
};
use cardquest::entry_hash::{decimal_bytes, generate_entry_hash, hex16};
use cardquest::level::{compute_level_from_total_xp, level_threshold};
use cardquest::raffle::pick_weighted;
use cardquest::rng::{next_rand_u64, seed_from_timestamp};
use cardquest::text::{contains_char, is_blank, normalize_email, normalize_wallet, trim_owned};

#[test]
fn wallet_and_email_are_trimmed_and_lowercased() {
    assert_eq!(normalize_wallet("  0xAbC\t"), "0xabc");
    assert_eq!(normalize_email(" Me@Example.COM "), "me@example.com");
    assert_eq!(trim_owned("\u{3000} x y \n"), "x y");
}

#[test]
fn blank_means_only_whitespace() {
    assert!(is_blank(""));
    assert!(is_blank(" \t\n\u{a0}"));
    assert!(!is_blank(" a "));
    assert!(contains_char("a@b", '@'));
    assert!(!contains_char("ab", '@'));
}

#[test]
fn epoch_is_day_zero_thursday() {
    assert_eq!(day_number_from_timestamp(0), 0);
    assert_eq!(hour_and_dow_and_day(0), (0, 4, 0));
}

#[test]
fn fourth_of_january_1970_is_sunday() {
    assert_eq!(hour_and_dow_and_day(3 * 86_400_000_000), (0, 0, 3));
    assert!(is_weekend(0));
    assert!(is_weekend(6));
    assert!(!is_weekend(4));
}

#[test]
fn negative_timestamps_count_as_epoch() {
    assert_eq!(day_number_from_timestamp(-5), 0);
    assert_eq!(hour_and_dow_and_day(-1), (0, 4, 0));
}

#[test]
fn hour_of_day_and_flags() {
    let t = 2 * MICROS_PER_DAY + 19 * MICROS_PER_HOUR + 5;
    assert_eq!(hour_and_dow_and_day(t), (19, 6, 2));
    assert!(is_morning(11));
    assert!(!is_morning(12));
    assert!(is_evening(18));
    assert!(!is_evening(17));
}

#[test]
fn level_thresholds_grow_by_half() {
    let as_xp = |(n, d): (u128, u128)| n as f64 / d as f64;
    assert_eq!(as_xp(level_threshold(1)), 100.0);
    assert_eq!(as_xp(level_threshold(2)), 150.0);
    assert_eq!(as_xp(level_threshold(3)), 225.0);
    assert_eq!(level_threshold(0), (100, 1));
}

#[test]
fn levels_from_total_xp() {
    assert_eq!(compute_level_from_total_xp(0), 1);
    assert_eq!(compute_level_from_total_xp(99), 1);
    assert_eq!(compute_level_from_total_xp(100), 2);
    assert_eq!(compute_level_from_total_xp(249), 2);
    assert_eq!(compute_level_from_total_xp(250), 3);
    assert_eq!(compute_level_from_total_xp(-40), 1);
}

#[test]
fn levels_never_fall_as_xp_grows() {
    let mut last = 0;
    for xp in [0i64, 1, 99, 100, 101, 250, 474, 475, 10_000, 1_000_000, i64::MAX] {
        let level = compute_level_from_total_xp(xp);
        assert!(level >= last);
        last = level;
    }
    assert!(compute_level_from_total_xp(i64::MAX) < 120);
}

#[test]
fn entry_hash_is_fnv1a_of_wallet_email_and_time() {
    assert_eq!(generate_entry_hash("0xabc", "a@b.c", 123), "d634642b20ffc945");
    assert_eq!(generate_entry_hash("w", "e@x", -5), "7a2a6f3352a8df41");
}

#[test]
fn entry_hash_is_deterministic_and_input_sensitive() {
    let a = generate_entry_hash("0xabc", "a@b.c", 123);
    assert_eq!(a, generate_entry_hash("0xabc", "a@b.c", 123));
    assert_eq!(generate_entry_hash("0xabc", "a@b.c", 124), "d6345d2b20ffbd60");
    assert_eq!(generate_entry_hash("0xabd", "a@b.c", 123), "a524ff640027b358");
    assert_eq!(a.len(), 16);
}

#[test]
fn decimal_and_hex_text() {
    assert_eq!(decimal_bytes(-42), b"-42".to_vec());
    assert_eq!(decimal_bytes(0), b"0".to_vec());
    assert_eq!(decimal_bytes(i64::MIN), i64::MIN.to_string().into_bytes());
    assert_eq!(hex16(0xcbf29ce484222325), "cbf29ce484222325");
    assert_eq!(hex16(1), "0000000000000001");
}

#[test]
fn xorshift_step_matches_reference_values() {
    let mut seed: u64 = 1;
    let r = next_rand_u64(&mut seed);
    assert_eq!(seed, 33554433);
    assert_eq!(r, 5180492295206395165);
    assert_eq!(seed_from_timestamp(1), 11400714819323198485);
    let mut s = seed_from_timestamp(1_700_000_000_000_000);
    assert_eq!(next_rand_u64(&mut s), 11734560798418234079);
}

#[test]
fn weighted_pick_follows_running_weight() {
    let w = vec![1u64, 0, 3];
    assert_eq!(pick_weighted(&w, 0), 0);
    assert_eq!(pick_weighted(&w, 1u64 << 62), 0);
    assert_eq!(pick_weighted(&w, (1u64 << 62) + 1), 2);
    assert_eq!(pick_weighted(&w, u64::MAX), 2);
}

#[test]
fn weighted_pick_without_weight_is_uniform_by_modulo() {
    let w = vec![0u64, 0, 0];
    assert_eq!(pick_weighted(&w, 7), 1);
    assert_eq!(pick_weighted(&w, 9), 0);
}

#[test]
fn weighted_pick_frequencies_follow_weights() {
    let w = vec![1u64, 3];
    let mut seed: u64 = 88172645463325252;
    let mut hits = [0u32; 2];
    for _ in 0..40_000 {
        let d = next_rand_u64(&mut seed);
        hits[pick_weighted(&w, d)] += 1;
    }
    let share = hits[0] as f64 / 40_000.0;
    assert!((share - 0.25).abs() < 0.02);
}
