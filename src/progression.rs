//! Users, experience grants and achievements.

use vstd::prelude::*;
use crate::error::RuleError;
use crate::level::{compute_level_from_total_xp, level_of};
use crate::store::{well_formed, find_user, first_user, has_user, Achievement, Db, User, XPTransaction};
use crate::text::{is_blank, normalize_wallet, normalized, trim_owned, trimmed};

verus! {

/// Nothing but whitespace.
pub open spec fn blank(s: Seq<char>) -> bool {
    trimmed(s).len() == 0
}

/// Experience after a grant, held at `i64::MAX`.
pub open spec fn saturated_sum(total: int, amount: int) -> int {
    if total + amount > i64::MAX {
        i64::MAX as int
    } else {
        total + amount
    }
}

/// Whether `w` already unlocked the achievement `a`.
pub open spec fn has_achievement(rows: Seq<Achievement>, w: Seq<char>, a: Seq<char>) -> bool {
    exists|i: int|
        0 <= i < rows.len() && (#[trigger] rows[i]).wallet@ == w && rows[i].achievement_id@ == a
}

/// Registers a new user with no experience at level 1.
pub fn create_user(db: &mut Db, now: i64, wallet: String, username: String) -> (r: Result<
    (),
    RuleError,
>)
    ensures
        well_formed(*old(db)) ==> well_formed(*final(db)),
        ({
            let w = normalized(wallet@);
            if blank(w) {
                r == Err::<(), RuleError>(RuleError::EmptyWallet)
            } else if blank(username@) {
                r == Err::<(), RuleError>(RuleError::EmptyUsername)
            } else if has_user(old(db).users@, w) {
                r == Err::<(), RuleError>(RuleError::UserExists)
            } else {
                r is Ok
            }
        }),
        r is Err ==> *final(db) == *old(db),
        r is Ok ==> {
            let u = final(db).users@.last();
            &&& final(db).users@ == old(db).users@.push(u)
            &&& u.wallet@ == normalized(wallet@)
            &&& u.username@ == trimmed(username@)
            &&& u.total_xp == 0
            &&& u.level == 1
            &&& u.created_at == now
            &&& u.updated_at == now
            &&& *final(db) == (Db { users: final(db).users, ..*old(db) })
        },
{
    let wallet_norm = normalize_wallet(wallet.as_str());
    let uname = trim_owned(username.as_str());
    if is_blank(wallet_norm.as_str()) {
        return Err(RuleError::EmptyWallet);
    }
    if uname.as_str().is_empty() {
        return Err(RuleError::EmptyUsername);
    }
    if find_user(&db.users, &wallet_norm).is_some() {
        return Err(RuleError::UserExists);
    }
    db.users.push(
        User {
            wallet: wallet_norm,
            username: uname,
            total_xp: 0,
            level: 1,
            created_at: now,
            updated_at: now,
        },
    );
    Ok(())
}

/// Renames an existing user.
pub fn update_username(db: &mut Db, now: i64, wallet: String, username: String) -> (r: Result<
    (),
    RuleError,
>)
    ensures
        well_formed(*old(db)) ==> well_formed(*final(db)),
        ({
            let w = normalized(wallet@);
            if blank(w) {
                r == Err::<(), RuleError>(RuleError::EmptyWallet)
            } else if blank(username@) {
                r == Err::<(), RuleError>(RuleError::EmptyUsername)
            } else if !has_user(old(db).users@, w) {
                r == Err::<(), RuleError>(RuleError::UserNotFound)
            } else {
                r is Ok
            }
        }),
        r is Err ==> *final(db) == *old(db),
        r is Ok ==> exists|i: int|
            #![trigger first_user(old(db).users@, normalized(wallet@), i)]
            {
                &&& first_user(old(db).users@, normalized(wallet@), i)
                &&& final(db).users@ == old(db).users@.update(i, final(db).users@[i])
                &&& final(db).users@[i] == (User {
                    username: final(db).users@[i].username,
                    updated_at: now,
                    ..old(db).users@[i]
                })
                &&& final(db).users@[i].username@ == trimmed(username@)
                &&& *final(db) == (Db { users: final(db).users, ..*old(db) })
            },
{
    let wallet_norm = normalize_wallet(wallet.as_str());
    let new_username = trim_owned(username.as_str());
    if is_blank(wallet_norm.as_str()) {
        return Err(RuleError::EmptyWallet);
    }
    if new_username.as_str().is_empty() {
        return Err(RuleError::EmptyUsername);
    }
    match find_user(&db.users, &wallet_norm) {
        Some(i) => {
            let old_row = &db.users[i];
            let row = User {
                wallet: old_row.wallet.clone(),
                username: new_username,
                total_xp: old_row.total_xp,
                level: old_row.level,
                created_at: old_row.created_at,
                updated_at: now,
            };
            db.users.set(i, row);
            Ok(())
        },
        None => Err(RuleError::UserNotFound),
    }
}

/// Grants experience: the user's total grows (held at `i64::MAX`), the level
/// follows the total, and the grant is logged.
pub fn award_xp(db: &mut Db, now: i64, wallet: String, amount: i64, reason: String) -> (r: Result<
    (),
    RuleError,
>)
    ensures
        well_formed(*old(db)) ==> well_formed(*final(db)),
        ({
            let w = normalized(wallet@);
            if blank(w) {
                r == Err::<(), RuleError>(RuleError::EmptyWallet)
            } else if amount <= 0 {
                r == Err::<(), RuleError>(RuleError::NonPositiveXp)
            } else if blank(reason@) {
                r == Err::<(), RuleError>(RuleError::EmptyReason)
            } else if !has_user(old(db).users@, w) {
                r == Err::<(), RuleError>(RuleError::UserNotFound)
            } else if old(db).next_id == u64::MAX {
                r == Err::<(), RuleError>(RuleError::IdsExhausted)
            } else {
                r is Ok
            }
        }),
        r is Err ==> *final(db) == *old(db),
        r is Ok ==> exists|i: int|
            #![trigger first_user(old(db).users@, normalized(wallet@), i)]
            {
                let before = old(db).users@[i];
                let after = final(db).users@[i];
                let tx = final(db).xp_transactions@.last();
                &&& first_user(old(db).users@, normalized(wallet@), i)
                &&& final(db).users@ == old(db).users@.update(i, after)
                &&& after.total_xp == saturated_sum(before.total_xp as int, amount as int)
                &&& after.level == level_of(after.total_xp as int)
                &&& after == (User {
                    total_xp: after.total_xp,
                    level: after.level,
                    updated_at: now,
                    ..before
                })
                &&& final(db).xp_transactions@ == old(db).xp_transactions@.push(tx)
                &&& tx.id == old(db).next_id
                &&& tx.wallet@ == normalized(wallet@)
                &&& tx.amount == amount
                &&& tx.reason@ == trimmed(reason@)
                &&& tx.timestamp == now
                &&& *final(db) == (Db {
                    users: final(db).users,
                    xp_transactions: final(db).xp_transactions,
                    next_id: (old(db).next_id + 1) as u64,
                    ..*old(db)
                })
            },
{
    let wallet_norm = normalize_wallet(wallet.as_str());
    let reason_trim = trim_owned(reason.as_str());
    if is_blank(wallet_norm.as_str()) {
        return Err(RuleError::EmptyWallet);
    }
    if amount <= 0 {
        return Err(RuleError::NonPositiveXp);
    }
    if reason_trim.as_str().is_empty() {
        return Err(RuleError::EmptyReason);
    }
    match find_user(&db.users, &wallet_norm) {
        Some(i) => {
            if db.next_id == u64::MAX {
                return Err(RuleError::IdsExhausted);
            }
            let old_row = &db.users[i];
            let new_total: i64 = if old_row.total_xp > i64::MAX - amount {
                i64::MAX
            } else {
                old_row.total_xp + amount
            };
            let row = User {
                wallet: old_row.wallet.clone(),
                username: old_row.username.clone(),
                total_xp: new_total,
                level: compute_level_from_total_xp(new_total),
                created_at: old_row.created_at,
                updated_at: now,
            };
            db.users.set(i, row);
            let id = db.next_id;
            db.next_id = id + 1;
            db.xp_transactions.push(
                XPTransaction { id, wallet: wallet_norm, amount, reason: reason_trim, timestamp: now },
            );
            Ok(())
        },
        None => Err(RuleError::UserNotFound),
    }
}

/// Once the achievement `a` of wallet `w` is recorded, a second unlock of it
/// is refused.
pub proof fn unlocked_achievement_refused(rows: Seq<Achievement>, w: Seq<char>, a: Seq<char>)
    requires
        rows.len() > 0,
        rows.last().wallet@ == w,
        rows.last().achievement_id@ == a,
    ensures
        has_achievement(rows, w, a),
{
    let last = (rows.len() - 1) as int;
    assert(rows[last].wallet@ == w);
}

/// Records that a user unlocked an achievement; each one unlocks once.
pub fn unlock_achievement(db: &mut Db, now: i64, wallet: String, achievement_id: String) -> (r:
    Result<(), RuleError>)
    ensures
        well_formed(*old(db)) ==> well_formed(*final(db)),
        ({
            let w = normalized(wallet@);
            let a = trimmed(achievement_id@);
            if blank(w) {
                r == Err::<(), RuleError>(RuleError::EmptyWallet)
            } else if blank(achievement_id@) {
                r == Err::<(), RuleError>(RuleError::EmptyAchievementId)
            } else if !has_user(old(db).users@, w) {
                r == Err::<(), RuleError>(RuleError::UserNotFound)
            } else if has_achievement(old(db).achievements@, w, a) {
                r == Err::<(), RuleError>(RuleError::AchievementUnlocked)
            } else if old(db).next_id == u64::MAX {
                r == Err::<(), RuleError>(RuleError::IdsExhausted)
            } else {
                r is Ok
            }
        }),
        r is Err ==> *final(db) == *old(db),
        r is Ok ==> {
            let row = final(db).achievements@.last();
            &&& final(db).achievements@ == old(db).achievements@.push(row)
            &&& row.id == old(db).next_id
            &&& row.wallet@ == normalized(wallet@)
            &&& row.achievement_id@ == trimmed(achievement_id@)
            &&& row.unlocked_at == now
            &&& !row.seen
            &&& *final(db) == (Db {
                achievements: final(db).achievements,
                next_id: (old(db).next_id + 1) as u64,
                ..*old(db)
            })
        },
{
    let wallet_norm = normalize_wallet(wallet.as_str());
    let ach_id = trim_owned(achievement_id.as_str());
    if is_blank(wallet_norm.as_str()) {
        return Err(RuleError::EmptyWallet);
    }
    if ach_id.as_str().is_empty() {
        return Err(RuleError::EmptyAchievementId);
    }
    match find_user(&db.users, &wallet_norm) {
        Some(i) => {
            proof {
                assert(db.users@[i as int].wallet@ == wallet_norm@);
            }
        },
        None => {
            return Err(RuleError::UserNotFound);
        },
    }
    let mut k: usize = 0;
    while k < db.achievements.len()
        invariant
            k <= db.achievements@.len(),
            *db == *old(db),
            wallet_norm@ == normalized(wallet@),
            ach_id@ == trimmed(achievement_id@),
            !blank(normalized(wallet@)),
            !blank(achievement_id@),
            has_user(db.users@, wallet_norm@),
            forall|j: int|
                0 <= j < k ==> !((#[trigger] db.achievements@[j]).wallet@ == wallet_norm@
                    && db.achievements@[j].achievement_id@ == ach_id@),
        decreases db.achievements@.len() - k,
    {
        if db.achievements[k].wallet == wallet_norm && db.achievements[k].achievement_id == ach_id {
            proof {
                assert(db.achievements@[k as int].achievement_id@ == ach_id@);
            }
            return Err(RuleError::AchievementUnlocked);
        }
        k = k + 1;
    }
    if db.next_id == u64::MAX {
        return Err(RuleError::IdsExhausted);
    }
    let id = db.next_id;
    db.next_id = id + 1;
    db.achievements.push(
        Achievement { id, wallet: wallet_norm, achievement_id: ach_id, unlocked_at: now, seen: false },
    );
    Ok(())
}

} // verus!
