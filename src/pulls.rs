//! Daily card pulls, their timing records, per-pack usage counters and the
//! one-shot free pull.

use vstd::prelude::*;
use crate::calendar::{
    day_number_from_timestamp, day_of, hour_and_dow_and_day, hour_of, is_evening, is_morning,
    is_weekend, weekday_of,
};
use crate::error::RuleError;
use crate::progression::blank;
use crate::social::{complete_pending, completed_for};
use crate::store::{well_formed, find_user, has_user, CardPull, Db, FreePull, PackUsageStat, TimedPull};
use crate::text::{is_blank, normalize_wallet, normalized, opt_view};

verus! {

/// The pack a pull is counted under when none is named.
pub const DEFAULT_PACK: &'static str = "practice_pack";

/// The pack id a pull is recorded under: trimmed and lowercased, or the
/// default pack when that leaves nothing.
pub open spec fn pack_key(pack_id: Option<Seq<char>>) -> Seq<char> {
    match pack_id {
        Some(p) => if normalized(p).len() == 0 {
            DEFAULT_PACK@
        } else {
            normalized(p)
        },
        None => DEFAULT_PACK@,
    }
}

/// Card ids run from 1 to 365.
pub open spec fn card_in_range(card_id: u32) -> bool {
    1 <= card_id <= 365
}

/// An earlier pull of wallet `w` that blocks a pull with date string `d` on
/// server day `today`.
pub open spec fn blocks(p: CardPull, w: Seq<char>, d: Seq<char>, today: int) -> bool {
    p.wallet@ == w && (p.date_string@ == d || day_of(p.timestamp as int) == today)
}

/// `i` is the first pull in `pulls` that blocks.
pub open spec fn first_block(pulls: Seq<CardPull>, w: Seq<char>, d: Seq<char>, today: int, i: int) -> bool {
    0 <= i < pulls.len() && blocks(pulls[i], w, d, today) && forall|j: int|
        0 <= j < i ==> !blocks(#[trigger] pulls[j], w, d, today)
}

/// Whether some pull in `pulls` blocks.
pub open spec fn any_block(pulls: Seq<CardPull>, w: Seq<char>, d: Seq<char>, today: int) -> bool {
    exists|i: int| 0 <= i < pulls.len() && blocks(#[trigger] pulls[i], w, d, today)
}

/// The refusal that a blocking pull gives.
pub open spec fn block_error(p: CardPull, d: Seq<char>) -> RuleError {
    if p.date_string@ == d {
        RuleError::PulledForDate
    } else {
        RuleError::PulledToday
    }
}

/// Whether wallet `w` has a pull with date string `d`.
pub open spec fn pulled_with_date(pulls: Seq<CardPull>, w: Seq<char>, d: Seq<char>) -> bool {
    exists|i: int| 0 <= i < pulls.len() && (#[trigger] pulls[i]).wallet@ == w && pulls[i].date_string@ == d
}

/// Whether wallet `w` has a pull on server day `day`.
pub open spec fn pulled_on_day(pulls: Seq<CardPull>, w: Seq<char>, day: int) -> bool {
    exists|i: int|
        0 <= i < pulls.len() && (#[trigger] pulls[i]).wallet@ == w && day_of(pulls[i].timestamp as int) == day
}

/// The usage counter of `key` after one more pull at `now`.
pub open spec fn usage_bumped(old_stats: Seq<PackUsageStat>, new_stats: Seq<PackUsageStat>, key: Seq<char>, now: i64) -> bool {
    if exists|i: int| 0 <= i < old_stats.len() && (#[trigger] old_stats[i]).pack_id@ == key {
        exists|i: int|
            #![trigger old_stats[i]]
            {
                &&& 0 <= i < old_stats.len()
                &&& old_stats[i].pack_id@ == key
                &&& forall|j: int| 0 <= j < i ==> (#[trigger] old_stats[j]).pack_id@ != key
                &&& new_stats == old_stats.update(i, new_stats[i])
                &&& new_stats[i] == (PackUsageStat {
                    usage_count: if old_stats[i].usage_count == u64::MAX {
                        u64::MAX
                    } else {
                        (old_stats[i].usage_count + 1) as u64
                    },
                    last_used: now,
                    ..old_stats[i]
                })
            }
    } else {
        &&& new_stats == old_stats.push(new_stats.last())
        &&& new_stats.last().pack_id@ == key
        &&& new_stats.last().usage_count == 1
        &&& new_stats.last().last_used == now
    }
}

/// The first pull that blocks a new one, if any.
fn find_block(pulls: &Vec<CardPull>, w: &String, d: &String, today: i64) -> (r: Option<RuleError>)
    ensures
        match r {
            None => !any_block(pulls@, w@, d@, today as int),
            Some(e) => exists|i: int|
                #[trigger] first_block(pulls@, w@, d@, today as int, i) && e == block_error(
                    pulls@[i],
                    d@,
                ),
        },
{
    let mut k: usize = 0;
    while k < pulls.len()
        invariant
            k <= pulls@.len(),
            forall|j: int| 0 <= j < k ==> !blocks(#[trigger] pulls@[j], w@, d@, today as int),
        decreases pulls@.len() - k,
    {
        let p = &pulls[k];
        if p.wallet == *w {
            if p.date_string == *d {
                proof {
                    assert(first_block(pulls@, w@, d@, today as int, k as int));
                }
                return Some(RuleError::PulledForDate);
            }
            if day_number_from_timestamp(p.timestamp) == today {
                proof {
                    assert(first_block(pulls@, w@, d@, today as int, k as int));
                }
                return Some(RuleError::PulledToday);
            }
        }
        k = k + 1;
    }
    None
}

/// Counts one more pull of pack `key` at `now`.
fn bump_pack_usage(stats: &mut Vec<PackUsageStat>, key: String, now: i64)
    ensures
        usage_bumped(old(stats)@, final(stats)@, key@, now),
{
    let mut k: usize = 0;
    while k < stats.len()
        invariant
            k <= stats@.len(),
            *stats == *old(stats),
            forall|j: int| 0 <= j < k ==> (#[trigger] stats@[j]).pack_id@ != key@,
        decreases stats@.len() - k,
    {
        if stats[k].pack_id == key {
            let old_row = &stats[k];
            let count: u64 = if old_row.usage_count == u64::MAX {
                u64::MAX
            } else {
                old_row.usage_count + 1
            };
            let row = PackUsageStat { pack_id: old_row.pack_id.clone(), usage_count: count, last_used: now };
            stats.set(k, row);
            return;
        }
        k = k + 1;
    }
    stats.push(PackUsageStat { pack_id: key, usage_count: 1, last_used: now });
}

/// Trims and lowercases a pack id, falling back to the default pack.
pub fn normalize_pack_id(pack_id: &Option<String>) -> (r: String)
    ensures
        r@ == pack_key(opt_view(*pack_id)),
{
    match pack_id {
        Some(p) => {
            let n = normalize_wallet(p.as_str());
            if n.as_str().is_empty() {
                String::from_str(DEFAULT_PACK)
            } else {
                n
            }
        },
        None => String::from_str(DEFAULT_PACK),
    }
}

/// Records the day's card pull of a user: at most one per date string and at
/// most one per server day. The pull also gets a timing record, counts
/// towards its pack, and completes every pending referral of the wallet.
pub fn record_pull(
    db: &mut Db,
    now: i64,
    wallet: String,
    card_id: u32,
    date_string: String,
    pack_id: Option<String>,
) -> (r: Result<(), RuleError>)
    ensures
        well_formed(*old(db)) ==> well_formed(*final(db)),
        ({
            let w = normalized(wallet@);
            let today = day_of(now as int);
            if blank(w) {
                r == Err::<(), RuleError>(RuleError::EmptyWallet)
            } else if !card_in_range(card_id) {
                r == Err::<(), RuleError>(RuleError::CardIdOutOfRange)
            } else if blank(date_string@) {
                r == Err::<(), RuleError>(RuleError::EmptyDateString)
            } else if !has_user(old(db).users@, w) {
                r == Err::<(), RuleError>(RuleError::UserNotFound)
            } else if any_block(old(db).card_pulls@, w, date_string@, today) {
                exists|i: int|
                    #[trigger] first_block(old(db).card_pulls@, w, date_string@, today, i) && r
                        == Err::<(), RuleError>(block_error(old(db).card_pulls@[i], date_string@))
            } else if old(db).next_id >= u64::MAX - 1 {
                r == Err::<(), RuleError>(RuleError::IdsExhausted)
            } else {
                r is Ok
            }
        }),
        r is Err ==> *final(db) == *old(db),
        r is Ok ==> {
            let w = normalized(wallet@);
            let p = final(db).card_pulls@.last();
            let t = final(db).timed_pulls@.last();
            &&& final(db).card_pulls@ == old(db).card_pulls@.push(p)
            &&& p.id == old(db).next_id
            &&& p.wallet@ == w
            &&& p.card_id == card_id
            &&& p.timestamp == now
            &&& p.date_string@ == date_string@
            &&& p.pack_id@ == pack_key(opt_view(pack_id))
            &&& final(db).timed_pulls@ == old(db).timed_pulls@.push(t)
            &&& t.id == old(db).next_id + 1
            &&& t.wallet@ == w
            &&& t.card_id == card_id
            &&& t.timestamp == now
            &&& t.hour == hour_of(now as int)
            &&& t.day_of_week == weekday_of(now as int)
            &&& t.is_morning == (t.hour < 12)
            &&& t.is_evening == (t.hour >= 18)
            &&& t.is_weekend == (t.day_of_week == 0 || t.day_of_week == 6)
            &&& usage_bumped(
                old(db).pack_usage_stats@,
                final(db).pack_usage_stats@,
                pack_key(opt_view(pack_id)),
                now,
            )
            &&& final(db).referrals@.len() == old(db).referrals@.len()
            &&& forall|i: int|
                0 <= i < old(db).referrals@.len() ==> #[trigger] final(db).referrals@[i]
                    == completed_for(old(db).referrals@[i], w)
            &&& *final(db) == (Db {
                card_pulls: final(db).card_pulls,
                timed_pulls: final(db).timed_pulls,
                pack_usage_stats: final(db).pack_usage_stats,
                referrals: final(db).referrals,
                next_id: (old(db).next_id + 2) as u64,
                ..*old(db)
            })
        },
{
    let wallet_norm = normalize_wallet(wallet.as_str());
    if is_blank(wallet_norm.as_str()) {
        return Err(RuleError::EmptyWallet);
    }
    if card_id == 0 || card_id > 365 {
        return Err(RuleError::CardIdOutOfRange);
    }
    if is_blank(date_string.as_str()) {
        return Err(RuleError::EmptyDateString);
    }
    let pack = normalize_pack_id(&pack_id);
    match find_user(&db.users, &wallet_norm) {
        Some(i) => {
            proof {
                assert(db.users@[i as int].wallet@ == wallet_norm@);
            }
        },
        None => {
            return Err(RuleError::UserNotFound);
        },
    }
    let today = day_number_from_timestamp(now);
    match find_block(&db.card_pulls, &wallet_norm, &date_string, today) {
        Some(e) => {
            return Err(e);
        },
        None => {},
    }
    if db.next_id >= u64::MAX - 1 {
        return Err(RuleError::IdsExhausted);
    }
    let pull_id = db.next_id;
    db.next_id = pull_id + 2;
    db.card_pulls.push(
        CardPull {
            id: pull_id,
            wallet: wallet_norm.clone(),
            card_id,
            timestamp: now,
            date_string,
            pack_id: pack.clone(),
        },
    );
    let (hour, dow, _day) = hour_and_dow_and_day(now);
    db.timed_pulls.push(
        TimedPull {
            id: pull_id + 1,
            wallet: wallet_norm.clone(),
            card_id,
            timestamp: now,
            hour,
            day_of_week: dow,
            is_morning: is_morning(hour),
            is_evening: is_evening(hour),
            is_weekend: is_weekend(dow),
        },
    );
    bump_pack_usage(&mut db.pack_usage_stats, pack, now);
    let _completed_any = complete_pending(&mut db.referrals, &wallet_norm);
    Ok(())
}

/// Once a pull of wallet `w` with date string `d1` at `t1` is recorded, a
/// later pull of `w` is blocked when it names the same date string or falls
/// on the same server day.
pub proof fn recorded_pull_blocks(pulls: Seq<CardPull>, w: Seq<char>, d1: Seq<char>, t1: i64, d2: Seq<char>, t2: i64)
    requires
        pulls.len() > 0,
        pulls.last().wallet@ == w,
        pulls.last().date_string@ == d1,
        pulls.last().timestamp == t1,
        d1 == d2 || day_of(t1 as int) == day_of(t2 as int),
    ensures
        any_block(pulls, w, d2, day_of(t2 as int)),
        pulled_with_date(pulls, w, d2) || pulled_on_day(pulls, w, day_of(t2 as int)),
{
    let last = (pulls.len() - 1) as int;
    assert(blocks(pulls[last], w, d2, day_of(t2 as int)));
    if d1 == d2 {
        assert(pulls[last].date_string@ == d2);
    } else {
        assert(day_of(pulls[last].timestamp as int) == day_of(t2 as int));
    }
}

/// Tells, without writing, whether a user may still pull today: refused when
/// a pull with the same date string exists, else when one fell on the
/// current server day.
pub fn check_daily_limit(db: &Db, now: i64, wallet: String, date_string: String) -> (r: Result<
    (),
    RuleError,
>)
    ensures
        ({
            let w = normalized(wallet@);
            if blank(w) {
                r == Err::<(), RuleError>(RuleError::EmptyWallet)
            } else if blank(date_string@) {
                r == Err::<(), RuleError>(RuleError::EmptyDateString)
            } else if pulled_with_date(db.card_pulls@, w, date_string@) {
                r == Err::<(), RuleError>(RuleError::LimitForDate)
            } else if pulled_on_day(db.card_pulls@, w, day_of(now as int)) {
                r == Err::<(), RuleError>(RuleError::LimitToday)
            } else {
                r is Ok
            }
        }),
{
    let wallet_norm = normalize_wallet(wallet.as_str());
    if is_blank(wallet_norm.as_str()) {
        return Err(RuleError::EmptyWallet);
    }
    if is_blank(date_string.as_str()) {
        return Err(RuleError::EmptyDateString);
    }
    let pulls = &db.card_pulls;
    let mut k: usize = 0;
    while k < pulls.len()
        invariant
            k <= pulls@.len(),
            pulls@ == db.card_pulls@,
            wallet_norm@ == normalized(wallet@),
            !blank(normalized(wallet@)),
            !blank(date_string@),
            forall|j: int|
                0 <= j < k ==> !((#[trigger] pulls@[j]).wallet@ == wallet_norm@
                    && pulls@[j].date_string@ == date_string@),
        decreases pulls@.len() - k,
    {
        if pulls[k].wallet == wallet_norm && pulls[k].date_string == date_string {
            proof {
                assert(pulls@[k as int].date_string@ == date_string@);
            }
            return Err(RuleError::LimitForDate);
        }
        k = k + 1;
    }
    let today = day_number_from_timestamp(now);
    let mut k: usize = 0;
    while k < pulls.len()
        invariant
            k <= pulls@.len(),
            pulls@ == db.card_pulls@,
            today == day_of(now as int),
            wallet_norm@ == normalized(wallet@),
            !blank(normalized(wallet@)),
            !blank(date_string@),
            !pulled_with_date(db.card_pulls@, normalized(wallet@), date_string@),
            forall|j: int|
                0 <= j < k ==> !((#[trigger] pulls@[j]).wallet@ == wallet_norm@ && day_of(
                    pulls@[j].timestamp as int,
                ) == today),
        decreases pulls@.len() - k,
    {
        if pulls[k].wallet == wallet_norm && day_number_from_timestamp(pulls[k].timestamp) == today {
            proof {
                assert(day_of(pulls@[k as int].timestamp as int) == today);
            }
            return Err(RuleError::LimitToday);
        }
        k = k + 1;
    }
    Ok(())
}

/// Whether wallet `w` holds a free-pull record.
pub open spec fn has_free_pull(rows: Seq<FreePull>, w: Seq<char>) -> bool {
    exists|i: int| 0 <= i < rows.len() && (#[trigger] rows[i]).wallet@ == w
}

/// `i` is the first free-pull record of wallet `w`.
pub open spec fn first_free_pull(rows: Seq<FreePull>, w: Seq<char>, i: int) -> bool {
    0 <= i < rows.len() && rows[i].wallet@ == w && forall|j: int|
        0 <= j < i ==> (#[trigger] rows[j]).wallet@ != w
}

/// Spends the wallet's one free pull.
pub fn record_free_pull(db: &mut Db, now: i64, wallet: String) -> (r: Result<(), RuleError>)
    ensures
        well_formed(*old(db)) ==> well_formed(*final(db)),
        ({
            let w = normalized(wallet@);
            if blank(w) {
                r == Err::<(), RuleError>(RuleError::EmptyWallet)
            } else if exists|i: int|
                #[trigger] first_free_pull(old(db).free_pulls@, w, i) && old(db).free_pulls@[i].used {
                r == Err::<(), RuleError>(RuleError::FreePullUsed)
            } else {
                r is Ok
            }
        }),
        r is Err ==> *final(db) == *old(db),
        r is Ok ==> {
            let w = normalized(wallet@);
            &&& *final(db) == (Db { free_pulls: final(db).free_pulls, ..*old(db) })
            &&& if has_free_pull(old(db).free_pulls@, w) {
                exists|i: int|
                    #[trigger] first_free_pull(old(db).free_pulls@, w, i)
                        && final(db).free_pulls@ == old(db).free_pulls@.update(
                        i,
                        final(db).free_pulls@[i],
                    ) && final(db).free_pulls@[i] == (FreePull {
                        used: true,
                        timestamp: now,
                        ..old(db).free_pulls@[i]
                    })
            } else {
                let f = final(db).free_pulls@.last();
                &&& final(db).free_pulls@ == old(db).free_pulls@.push(f)
                &&& f.wallet@ == w
                &&& f.used
                &&& f.timestamp == now
            }
        },
{
    let wallet_norm = normalize_wallet(wallet.as_str());
    if is_blank(wallet_norm.as_str()) {
        return Err(RuleError::EmptyWallet);
    }
    let mut k: usize = 0;
    while k < db.free_pulls.len()
        invariant
            k <= db.free_pulls@.len(),
            *db == *old(db),
            wallet_norm@ == normalized(wallet@),
            !blank(normalized(wallet@)),
            forall|j: int| 0 <= j < k ==> (#[trigger] db.free_pulls@[j]).wallet@ != wallet_norm@,
        decreases db.free_pulls@.len() - k,
    {
        if db.free_pulls[k].wallet == wallet_norm {
            proof {
                assert(first_free_pull(db.free_pulls@, wallet_norm@, k as int));
            }
            if db.free_pulls[k].used {
                return Err(RuleError::FreePullUsed);
            }
            let row = FreePull { wallet: db.free_pulls[k].wallet.clone(), used: true, timestamp: now };
            db.free_pulls.set(k, row);
            return Ok(());
        }
        k = k + 1;
    }
    db.free_pulls.push(FreePull { wallet: wallet_norm, used: true, timestamp: now });
    Ok(())
}

} // verus!
