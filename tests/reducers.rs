use cardquest::calendar::MICROS_PER_DAY;
use cardquest::error::RuleError;
use cardquest::journal::save_journal_entry;
use cardquest::progression::{award_xp, create_user, unlock_achievement, update_username};
use cardquest::pulls::{check_daily_limit, record_free_pull, record_pull};
use cardquest::raffle::{capture_email, enter_raffle, get_raffle_count, get_raffle_entries, select_weighted_winner};
use cardquest::social::{complete_referral, create_referral, toggle_favorite};
use cardquest::store::{ActionType, Db};

const T0: i64 = 1_700_000_000_000_000;

fn s(v: &str) -> String {
    v.to_string()
}

fn db_with_user(wallet: &str) -> Db {
    let mut db = Db::new();
    assert_eq!(create_user(&mut db, T0, s(wallet), s("player")), Ok(()));
    db
}

#[test]
fn create_user_normalizes_and_refuses_duplicates() {
    let mut db = Db::new();
    assert_eq!(create_user(&mut db, T0, s("  0xAA "), s(" ann ")), Ok(()));
    assert_eq!(db.users[0].wallet, "0xaa");
    assert_eq!(db.users[0].username, "ann");
    assert_eq!(db.users[0].level, 1);
    assert_eq!(create_user(&mut db, T0, s("0xaa"), s("bob")), Err(RuleError::UserExists));
    assert_eq!(create_user(&mut db, T0, s("   "), s("bob")), Err(RuleError::EmptyWallet));
    assert_eq!(create_user(&mut db, T0, s("0xbb"), s(" ")), Err(RuleError::EmptyUsername));
    assert_eq!(db.users.len(), 1);
}

#[test]
fn update_username_needs_a_user() {
    let mut db = db_with_user("0xaa");
    assert_eq!(update_username(&mut db, T0 + 5, s("0xAA"), s(" neo ")), Ok(()));
    assert_eq!(db.users[0].username, "neo");
    assert_eq!(db.users[0].updated_at, T0 + 5);
    assert_eq!(update_username(&mut db, T0, s("0xcc"), s("x")), Err(RuleError::UserNotFound));
}

#[test]
fn award_xp_updates_total_level_and_log() {
    let mut db = db_with_user("0xaa");
    assert_eq!(award_xp(&mut db, T0, s("0xaa"), 250, s(" quest ")), Ok(()));
    assert_eq!(db.users[0].total_xp, 250);
    assert_eq!(db.users[0].level, 3);
    assert_eq!(db.xp_transactions.len(), 1);
    assert_eq!(db.xp_transactions[0].amount, 250);
    assert_eq!(db.xp_transactions[0].reason, "quest");
    assert_eq!(award_xp(&mut db, T0, s("0xaa"), 0, s("r")), Err(RuleError::NonPositiveXp));
    assert_eq!(award_xp(&mut db, T0, s("0xaa"), 5, s(" ")), Err(RuleError::EmptyReason));
    assert_eq!(award_xp(&mut db, T0, s("0xzz"), 5, s("r")), Err(RuleError::UserNotFound));
    assert_eq!(db.xp_transactions.len(), 1);
}

#[test]
fn award_xp_saturates() {
    let mut db = db_with_user("0xaa");
    assert_eq!(award_xp(&mut db, T0, s("0xaa"), i64::MAX, s("a")), Ok(()));
    assert_eq!(award_xp(&mut db, T0, s("0xaa"), 10, s("b")), Ok(()));
    assert_eq!(db.users[0].total_xp, i64::MAX);
    assert_eq!(db.users[0].level, compute_level(i64::MAX));
}

fn compute_level(xp: i64) -> u32 {
    cardquest::level::compute_level_from_total_xp(xp)
}

#[test]
fn achievements_unlock_once() {
    let mut db = db_with_user("0xaa");
    assert_eq!(unlock_achievement(&mut db, T0, s("0xaa"), s(" first ")), Ok(()));
    assert_eq!(db.achievements[0].achievement_id, "first");
    assert!(!db.achievements[0].seen);
    assert_eq!(
        unlock_achievement(&mut db, T0, s("0XAA "), s("first")),
        Err(RuleError::AchievementUnlocked)
    );
    assert_eq!(unlock_achievement(&mut db, T0, s("0xaa"), s("")), Err(RuleError::EmptyAchievementId));
    assert_eq!(db.achievements.len(), 1);
}

#[test]
fn pull_is_recorded_with_timing_and_pack_usage() {
    let mut db = db_with_user("0xaa");
    let t = 3 * MICROS_PER_DAY + 20 * 3_600_000_000;
    assert_eq!(record_pull(&mut db, t, s("0xaa"), 7, s("1970-01-04"), None), Ok(()));
    assert_eq!(db.card_pulls[0].pack_id, "practice_pack");
    let timed = &db.timed_pulls[0];
    assert_eq!((timed.hour, timed.day_of_week), (20, 0));
    assert!(timed.is_evening && timed.is_weekend && !timed.is_morning);
    assert_eq!(db.pack_usage_stats[0].usage_count, 1);
    let t2 = t + MICROS_PER_DAY;
    assert_eq!(record_pull(&mut db, t2, s("0xaa"), 8, s("d2"), Some(s("  "))), Ok(()));
    assert_eq!(db.pack_usage_stats.len(), 1);
    assert_eq!(db.pack_usage_stats[0].usage_count, 2);
    assert_eq!(db.pack_usage_stats[0].last_used, t2);
    let t3 = t2 + MICROS_PER_DAY;
    assert_eq!(record_pull(&mut db, t3, s("0xaa"), 9, s("d3"), Some(s(" Vibe "))), Ok(()));
    assert_eq!(db.pack_usage_stats[1].pack_id, "vibe");
}

#[test]
fn second_pull_on_same_server_day_is_refused() {
    let mut db = db_with_user("0xaa");
    assert_eq!(record_pull(&mut db, T0, s("0xaa"), 1, s("2023-11-14"), None), Ok(()));
    assert_eq!(
        record_pull(&mut db, T0 + 1000, s("0xaa"), 2, s("2023-11-15"), None),
        Err(RuleError::PulledToday)
    );
    assert_eq!(db.card_pulls.len(), 1);
    assert_eq!(db.timed_pulls.len(), 1);
}

#[test]
fn second_pull_with_same_date_string_is_refused() {
    let mut db = db_with_user("0xaa");
    assert_eq!(record_pull(&mut db, T0, s("0xaa"), 1, s("2023-11-14"), None), Ok(()));
    assert_eq!(
        record_pull(&mut db, T0 + 2 * MICROS_PER_DAY, s("0xaa"), 2, s("2023-11-14"), None),
        Err(RuleError::PulledForDate)
    );
    assert_eq!(db.card_pulls.len(), 1);
}

#[test]
fn pull_validation() {
    let mut db = db_with_user("0xaa");
    assert_eq!(record_pull(&mut db, T0, s("0xaa"), 0, s("d"), None), Err(RuleError::CardIdOutOfRange));
    assert_eq!(record_pull(&mut db, T0, s("0xaa"), 366, s("d"), None), Err(RuleError::CardIdOutOfRange));
    assert_eq!(record_pull(&mut db, T0, s("0xaa"), 365, s(" "), None), Err(RuleError::EmptyDateString));
    assert_eq!(record_pull(&mut db, T0, s("0xbb"), 1, s("d"), None), Err(RuleError::UserNotFound));
    assert_eq!(record_pull(&mut db, T0, s(""), 1, s("d"), None), Err(RuleError::EmptyWallet));
}

#[test]
fn daily_limit_check_reads_only() {
    let mut db = db_with_user("0xaa");
    assert_eq!(check_daily_limit(&db, T0, s("0xaa"), s("d1")), Ok(()));
    assert_eq!(record_pull(&mut db, T0, s("0xaa"), 1, s("d1"), None), Ok(()));
    assert_eq!(check_daily_limit(&db, T0 + 5, s("0xaa"), s("d1")), Err(RuleError::LimitForDate));
    assert_eq!(check_daily_limit(&db, T0 + 5, s("0xaa"), s("d2")), Err(RuleError::LimitToday));
    assert_eq!(check_daily_limit(&db, T0 + MICROS_PER_DAY, s("0xaa"), s("d2")), Ok(()));
    assert_eq!(check_daily_limit(&db, T0, s("0xaa"), s(" ")), Err(RuleError::EmptyDateString));
}

#[test]
fn pull_completes_pending_referrals() {
    let mut db = db_with_user("0xbb");
    assert_eq!(create_referral(&mut db, T0, s("0xAA"), s("0xbb"), s("bee")), Ok(()));
    assert_eq!(create_referral(&mut db, T0, s("0xcc"), s("0xBB"), s("bee")), Ok(()));
    assert_eq!(create_referral(&mut db, T0, s("0xaa"), s("0xdd"), s("dee")), Ok(()));
    assert_eq!(record_pull(&mut db, T0, s("0xbb"), 3, s("d"), None), Ok(()));
    assert!(db.referrals[0].completed && db.referrals[1].completed);
    assert!(!db.referrals[2].completed);
}

#[test]
fn referrals_validate_and_complete_all_at_once() {
    let mut db = Db::new();
    assert_eq!(create_referral(&mut db, T0, s("0xaa"), s(" 0xAA"), s("x")), Err(RuleError::SameReferrer));
    assert_eq!(create_referral(&mut db, T0, s(" "), s("0xbb"), s("x")), Err(RuleError::EmptyWallets));
    assert_eq!(create_referral(&mut db, T0, s("0xaa"), s("0xbb"), s(" ")), Err(RuleError::EmptyReferredUsername));
    assert_eq!(create_referral(&mut db, T0, s("0xaa"), s("0xbb"), s("b")), Ok(()));
    assert_eq!(create_referral(&mut db, T0, s("0xaa"), s("0xbb"), s("b")), Ok(()));
    assert_eq!(complete_referral(&mut db, s("0xBB")), Ok(()));
    assert!(db.referrals.iter().all(|r| r.completed));
    assert_eq!(complete_referral(&mut db, s("0xbb")), Err(RuleError::NoPendingReferral));
    assert_eq!(complete_referral(&mut db, s("")), Err(RuleError::EmptyReferredWallet));
}

#[test]
fn free_pull_is_one_shot() {
    let mut db = Db::new();
    assert_eq!(record_free_pull(&mut db, T0, s("0xAA")), Ok(()));
    assert!(db.free_pulls[0].used);
    assert_eq!(record_free_pull(&mut db, T0, s("0xaa")), Err(RuleError::FreePullUsed));
    assert_eq!(record_free_pull(&mut db, T0, s(" ")), Err(RuleError::EmptyWallet));
}

#[test]
fn favorite_toggles_off_and_back_on_as_fresh_record() {
    let mut db = db_with_user("0xaa");
    assert_eq!(toggle_favorite(&mut db, T0, s("0xaa"), 5, Some(s("  nice "))), Ok(()));
    assert_eq!(db.favorites.len(), 1);
    let first_id = db.favorites[0].id;
    assert_eq!(db.favorites[0].note, Some(s("nice")));
    assert_eq!(toggle_favorite(&mut db, T0, s("0xaa"), 5, None), Ok(()));
    assert_eq!(db.favorites.len(), 0);
    assert_eq!(toggle_favorite(&mut db, T0, s("0xaa"), 5, Some(s("   "))), Ok(()));
    assert_eq!(db.favorites.len(), 1);
    assert_ne!(db.favorites[0].id, first_id);
    assert_eq!(db.favorites[0].note, None);
    assert_eq!(toggle_favorite(&mut db, T0, s("0xaa"), 0, None), Err(RuleError::CardIdOutOfRange));
    assert_eq!(toggle_favorite(&mut db, T0, s("0xzz"), 5, None), Err(RuleError::UserNotFound));
}

fn journal(db: &mut Db, card: u32, day: i64) -> Result<(), RuleError> {
    save_journal_entry(db, s("0xaa"), card, day * MICROS_PER_DAY + 1000, s("a"), s("b"), s("c"), 3, true)
}

#[test]
fn consecutive_journal_days_build_a_streak() {
    let mut db = db_with_user("0xaa");
    assert_eq!(journal(&mut db, 1, 100), Ok(()));
    assert_eq!(journal(&mut db, 2, 101), Ok(()));
    assert_eq!(journal(&mut db, 3, 102), Ok(()));
    assert_eq!(db.journal_streaks.len(), 1);
    assert_eq!(db.journal_streaks[0].current_streak, 3);
    assert_eq!(db.journal_streaks[0].longest_streak, 3);
}

#[test]
fn journal_gap_restarts_streak_and_keeps_longest() {
    let mut db = db_with_user("0xaa");
    assert_eq!(journal(&mut db, 1, 100), Ok(()));
    assert_eq!(journal(&mut db, 1, 101), Ok(()));
    assert_eq!(journal(&mut db, 1, 106), Ok(()));
    assert_eq!(db.journal_streaks[0].current_streak, 1);
    assert_eq!(db.journal_streaks[0].longest_streak, 2);
    assert_eq!(db.journal_streaks[0].last_entry, 106 * MICROS_PER_DAY + 1000);
}

#[test]
fn same_day_journal_save_updates_in_place() {
    let mut db = db_with_user("0xaa");
    assert_eq!(journal(&mut db, 1, 100), Ok(()));
    assert_eq!(journal(&mut db, 1, 101), Ok(()));
    let date = 101 * MICROS_PER_DAY + 5000;
    assert_eq!(
        save_journal_entry(&mut db, s("0xaa"), 1, date, s("x"), s("y"), s("z"), 9, false),
        Ok(())
    );
    assert_eq!(db.journal_entries.len(), 2);
    assert_eq!(db.journal_entries[1].prompt1, "x");
    assert_eq!(db.journal_entries[1].word_count, 9);
    assert_eq!(db.journal_streaks[0].current_streak, 2);
    assert_eq!(db.journal_streaks[0].last_entry, 101 * MICROS_PER_DAY + 1000);
}

#[test]
fn backdated_journal_entry_leaves_streak() {
    let mut db = db_with_user("0xaa");
    assert_eq!(journal(&mut db, 1, 100), Ok(()));
    assert_eq!(journal(&mut db, 2, 90), Ok(()));
    assert_eq!(db.journal_entries.len(), 2);
    assert_eq!(db.journal_streaks[0].current_streak, 1);
    assert_eq!(db.journal_streaks[0].last_entry, 100 * MICROS_PER_DAY + 1000);
}

#[test]
fn raffle_entry_is_recorded_once_per_wallet() {
    let mut db = Db::new();
    assert_eq!(
        enter_raffle(&mut db, 123, s(" 0xABC"), s(" ann "), s(" A@B.c "), s(" 10 "), 2_500_000),
        Ok(())
    );
    let e = &db.raffle_entries[0];
    assert_eq!(e.wallet, "0xabc");
    assert_eq!(e.email, "a@b.c");
    assert_eq!(e.token_balance, "10");
    assert_eq!(e.entry_hash, "d634642b20ffc945");
    assert_eq!(db.email_captures.len(), 1);
    assert_eq!(db.email_captures[0].action, ActionType::Raffle);
    assert_eq!(db.email_captures[0].wallet, Some(s("0xabc")));
    assert_eq!(
        enter_raffle(&mut db, 124, s("0xabc"), s("ann"), s("z@b.c"), s("1"), 1),
        Err(RuleError::AlreadyInRaffle)
    );
    assert_eq!(get_raffle_count(&db), 1);
    assert_eq!(get_raffle_entries(&db), 1);
}

#[test]
fn raffle_entry_validation() {
    let mut db = Db::new();
    assert_eq!(enter_raffle(&mut db, 1, s("w"), s("u"), s("nope"), s("1"), 1), Err(RuleError::InvalidEmail));
    assert_eq!(enter_raffle(&mut db, 1, s("w"), s(" "), s("a@b"), s("1"), 1), Err(RuleError::EmptyUsername));
    assert_eq!(enter_raffle(&mut db, 1, s("w"), s("u"), s("a@b"), s(" "), 1), Err(RuleError::EmptyTokenBalance));
    assert_eq!(enter_raffle(&mut db, 1, s(""), s("u"), s("a@b"), s("1"), 1), Err(RuleError::EmptyWallet));
}

#[test]
fn raffle_entry_reuses_existing_capture() {
    let mut db = Db::new();
    assert_eq!(capture_email(&mut db, 1, s("a@b.c"), s("ann"), ActionType::Raffle, Some(s("0XABC"))), Ok(()));
    assert_eq!(enter_raffle(&mut db, 2, s("0xabc"), s("ann"), s("A@b.c"), s("1"), 1), Ok(()));
    assert_eq!(db.email_captures.len(), 1);
}

#[test]
fn email_capture_is_unique_per_email_action_and_wallet() {
    let mut db = Db::new();
    assert_eq!(capture_email(&mut db, 1, s(" X@Y.z"), s("u"), ActionType::Signup, None), Ok(()));
    assert_eq!(
        capture_email(&mut db, 2, s("x@y.z"), s("u"), ActionType::Signup, None),
        Err(RuleError::EmailCaptured)
    );
    assert_eq!(capture_email(&mut db, 2, s("x@y.z"), s("u"), ActionType::Reminder, None), Ok(()));
    assert_eq!(capture_email(&mut db, 2, s("x@y.z"), s("u"), ActionType::Signup, Some(s("w"))), Ok(()));
    assert_eq!(capture_email(&mut db, 2, s("xy.z"), s("u"), ActionType::Signup, None), Err(RuleError::InvalidEmail));
    assert_eq!(capture_email(&mut db, 2, s("x@y.z"), s(" "), ActionType::Signup, None), Err(RuleError::EmptyUsername));
    assert_eq!(db.email_captures.len(), 3);
}

#[test]
fn winner_needs_entries() {
    let db = Db::new();
    assert_eq!(select_weighted_winner(&db, T0), Err(RuleError::NoRaffleEntries));
}

#[test]
fn winner_follows_seeded_draw() {
    let mut db = Db::new();
    assert_eq!(enter_raffle(&mut db, 1, s("w1"), s("u"), s("a@b"), s("1"), 1_000_000), Ok(()));
    assert_eq!(enter_raffle(&mut db, 1, s("w2"), s("u"), s("c@d"), s("1"), 3_000_000), Ok(()));
    assert_eq!(select_weighted_winner(&db, 1), Ok(0));
    assert_eq!(select_weighted_winner(&db, T0), Ok(1));
    assert_eq!(select_weighted_winner(&db, T0), select_weighted_winner(&db, T0));
}

#[test]
fn error_messages_read_as_sentences() {
    assert_eq!(RuleError::UserNotFound.message(), "User not found");
    assert_eq!(RuleError::CardIdOutOfRange.message(), "Card ID must be between 1 and 365");
}
