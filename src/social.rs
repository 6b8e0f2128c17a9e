//! Referrals and favorites.

use vstd::prelude::*;
use crate::error::RuleError;
use crate::progression::blank;
use crate::store::{well_formed, find_user, has_user, Db, Favorite, Referral};
use crate::text::{clean_note, is_blank, kept_note, normalize_wallet, normalized, opt_view, trim_owned, trimmed};

verus! {

/// A referral of wallet `w` that still waits for completion.
pub open spec fn pending_for(r: Referral, w: Seq<char>) -> bool {
    r.referred_wallet@ == w && !r.completed
}

/// The referral after the referred wallet `w` completed.
pub open spec fn completed_for(r: Referral, w: Seq<char>) -> Referral {
    if pending_for(r, w) {
        Referral { completed: true, ..r }
    } else {
        r
    }
}

/// Marks every pending referral of `w` completed; tells whether there was one.
pub fn complete_pending(referrals: &mut Vec<Referral>, w: &String) -> (found: bool)
    ensures
        final(referrals)@.len() == old(referrals)@.len(),
        forall|i: int|
            0 <= i < old(referrals)@.len() ==> #[trigger] final(referrals)@[i] == completed_for(
                old(referrals)@[i],
                w@,
            ),
        found == exists|i: int|
            0 <= i < old(referrals)@.len() && pending_for(#[trigger] old(referrals)@[i], w@),
{
    let mut found = false;
    let mut k: usize = 0;
    while k < referrals.len()
        invariant
            k <= referrals@.len(),
            referrals@.len() == old(referrals)@.len(),
            forall|j: int| 0 <= j < k ==> #[trigger] referrals@[j] == completed_for(old(referrals)@[j], w@),
            forall|j: int| k <= j < referrals@.len() ==> #[trigger] referrals@[j] == old(referrals)@[j],
            found == exists|j: int| 0 <= j < k && pending_for(#[trigger] old(referrals)@[j], w@),
        decreases referrals@.len() - k,
    {
        let r = &referrals[k];
        if r.referred_wallet == *w && !r.completed {
            let row = Referral {
                id: r.id,
                referrer_wallet: r.referrer_wallet.clone(),
                referred_wallet: r.referred_wallet.clone(),
                referred_username: r.referred_username.clone(),
                timestamp: r.timestamp,
                completed: true,
            };
            referrals.set(k, row);
            found = true;
        }
        proof {
            assert(referrals@[k as int] == completed_for(old(referrals)@[k as int], w@));
        }
        k = k + 1;
    }
    found
}

/// Whether some referral of `w` is pending.
fn any_pending(referrals: &Vec<Referral>, w: &String) -> (r: bool)
    ensures
        r == exists|i: int| 0 <= i < referrals@.len() && pending_for(#[trigger] referrals@[i], w@),
{
    let mut k: usize = 0;
    while k < referrals.len()
        invariant
            k <= referrals@.len(),
            forall|j: int| 0 <= j < k ==> !pending_for(#[trigger] referrals@[j], w@),
        decreases referrals@.len() - k,
    {
        if referrals[k].referred_wallet == *w && !referrals[k].completed {
            proof {
                assert(pending_for(referrals@[k as int], w@));
            }
            return true;
        }
        k = k + 1;
    }
    false
}

/// Records that `referrer_wallet` brought in `referred_wallet`. The same pair
/// may be recorded more than once.
pub fn create_referral(
    db: &mut Db,
    now: i64,
    referrer_wallet: String,
    referred_wallet: String,
    referred_username: String,
) -> (r: Result<(), RuleError>)
    ensures
        well_formed(*old(db)) ==> well_formed(*final(db)),
        ({
            let a = normalized(referrer_wallet@);
            let b = normalized(referred_wallet@);
            if blank(a) || blank(b) {
                r == Err::<(), RuleError>(RuleError::EmptyWallets)
            } else if a == b {
                r == Err::<(), RuleError>(RuleError::SameReferrer)
            } else if blank(referred_username@) {
                r == Err::<(), RuleError>(RuleError::EmptyReferredUsername)
            } else if old(db).next_id == u64::MAX {
                r == Err::<(), RuleError>(RuleError::IdsExhausted)
            } else {
                r is Ok
            }
        }),
        r is Err ==> *final(db) == *old(db),
        r is Ok ==> {
            let row = final(db).referrals@.last();
            &&& final(db).referrals@ == old(db).referrals@.push(row)
            &&& row.id == old(db).next_id
            &&& row.referrer_wallet@ == normalized(referrer_wallet@)
            &&& row.referred_wallet@ == normalized(referred_wallet@)
            &&& row.referred_username@ == trimmed(referred_username@)
            &&& row.timestamp == now
            &&& !row.completed
            &&& *final(db) == (Db {
                referrals: final(db).referrals,
                next_id: (old(db).next_id + 1) as u64,
                ..*old(db)
            })
        },
{
    let referrer = normalize_wallet(referrer_wallet.as_str());
    let referred = normalize_wallet(referred_wallet.as_str());
    let uname = trim_owned(referred_username.as_str());
    if is_blank(referrer.as_str()) || is_blank(referred.as_str()) {
        return Err(RuleError::EmptyWallets);
    }
    if referrer == referred {
        return Err(RuleError::SameReferrer);
    }
    if uname.as_str().is_empty() {
        return Err(RuleError::EmptyReferredUsername);
    }
    if db.next_id == u64::MAX {
        return Err(RuleError::IdsExhausted);
    }
    let id = db.next_id;
    db.next_id = id + 1;
    db.referrals.push(
        Referral {
            id,
            referrer_wallet: referrer,
            referred_wallet: referred,
            referred_username: uname,
            timestamp: now,
            completed: false,
        },
    );
    Ok(())
}

/// Completes every pending referral of the referred wallet at once.
pub fn complete_referral(db: &mut Db, referred_wallet: String) -> (r: Result<(), RuleError>)
    ensures
        well_formed(*old(db)) ==> well_formed(*final(db)),
        ({
            let w = normalized(referred_wallet@);
            if blank(w) {
                r == Err::<(), RuleError>(RuleError::EmptyReferredWallet)
            } else if !exists|i: int|
                0 <= i < old(db).referrals@.len() && pending_for(#[trigger] old(db).referrals@[i], w) {
                r == Err::<(), RuleError>(RuleError::NoPendingReferral)
            } else {
                r is Ok
            }
        }),
        r is Err ==> *final(db) == *old(db),
        r is Ok ==> {
            &&& final(db).referrals@.len() == old(db).referrals@.len()
            &&& forall|i: int|
                0 <= i < old(db).referrals@.len() ==> #[trigger] final(db).referrals@[i]
                    == completed_for(old(db).referrals@[i], normalized(referred_wallet@))
            &&& *final(db) == (Db { referrals: final(db).referrals, ..*old(db) })
        },
{
    let referred = normalize_wallet(referred_wallet.as_str());
    if is_blank(referred.as_str()) {
        return Err(RuleError::EmptyReferredWallet);
    }
    if !any_pending(&db.referrals, &referred) {
        return Err(RuleError::NoPendingReferral);
    }
    let _found = complete_pending(&mut db.referrals, &referred);
    Ok(())
}

/// Whether wallet `w` marked card `c` as a favorite.
pub open spec fn has_favorite(rows: Seq<Favorite>, w: Seq<char>, c: u32) -> bool {
    exists|i: int| 0 <= i < rows.len() && (#[trigger] rows[i]).wallet@ == w && rows[i].card_id == c
}

/// `i` is the first favorite of wallet `w` for card `c`.
pub open spec fn first_favorite(rows: Seq<Favorite>, w: Seq<char>, c: u32, i: int) -> bool {
    0 <= i < rows.len() && rows[i].wallet@ == w && rows[i].card_id == c && forall|j: int|
        0 <= j < i ==> !((#[trigger] rows[j]).wallet@ == w && rows[j].card_id == c)
}

/// The snapshot `after` is `before` with the favorite of wallet `w` for card
/// `c` toggled: the first such favorite removed, or a fresh one added.
pub open spec fn favorite_toggled(before: Db, after: Db, w: Seq<char>, c: u32, now: i64, note: Option<Seq<char>>) -> bool {
    if has_favorite(before.favorites@, w, c) {
        &&& exists|i: int|
            #[trigger] first_favorite(before.favorites@, w, c, i) && after.favorites@
                == before.favorites@.remove(i)
        &&& after == (Db { favorites: after.favorites, ..before })
    } else {
        let f = after.favorites@.last();
        &&& after.favorites@ == before.favorites@.push(f)
        &&& f.id == before.next_id
        &&& f.wallet@ == w
        &&& f.card_id == c
        &&& f.timestamp == now
        &&& opt_view(f.note) == kept_note(note)
        &&& after == (Db { favorites: after.favorites, next_id: (before.next_id + 1) as u64, ..before })
    }
}

/// Toggling a favorite twice gives back whether it exists; where it existed,
/// the second toggle adds a fresh record with the id then next.
pub proof fn toggle_twice_restores(
    d0: Db,
    d1: Db,
    d2: Db,
    w: Seq<char>,
    c: u32,
    t1: i64,
    t2: i64,
    n1: Option<Seq<char>>,
    n2: Option<Seq<char>>,
)
    requires
        well_formed(d0),
        favorite_toggled(d0, d1, w, c, t1, n1),
        favorite_toggled(d1, d2, w, c, t2, n2),
    ensures
        has_favorite(d2.favorites@, w, c) == has_favorite(d0.favorites@, w, c),
        has_favorite(d0.favorites@, w, c) ==> d2.favorites@.last().id == d1.next_id
            && d2.favorites@.last().wallet@ == w && d2.favorites@.last().card_id == c,
{
    let f0 = d0.favorites@;
    let f1 = d1.favorites@;
    if has_favorite(f0, w, c) {
        let i = choose|i: int| #[trigger] first_favorite(f0, w, c, i) && f1 == f0.remove(i);
        assert forall|k: int| 0 <= k < f1.len() implies !((#[trigger] f1[k]).wallet@ == w
            && f1[k].card_id == c) by {
            if k < i {
                assert(f1[k] == f0[k]);
            } else {
                assert(f1[k] == f0[k + 1]);
            }
        }
        assert(!has_favorite(f1, w, c));
        let last = (d2.favorites@.len() - 1) as int;
        assert(d2.favorites@[last].wallet@ == w);
    } else {
        let last = (f1.len() - 1) as int;
        assert(f1[last].wallet@ == w && f1[last].card_id == c);
        assert(has_favorite(f1, w, c));
        let i = choose|i: int| #[trigger] first_favorite(f1, w, c, i) && d2.favorites@ == f1.remove(i);
        assert(i == last) by {
            if i < last {
                assert(f1[i] == f0[i]);
            }
        }
        assert(d2.favorites@ =~= f0);
    }
}

/// Favorites a card, or takes the favorite away when it is there.
pub fn toggle_favorite(db: &mut Db, now: i64, wallet: String, card_id: u32, note: Option<String>) -> (r:
    Result<(), RuleError>)
    ensures
        well_formed(*old(db)) ==> well_formed(*final(db)),
        ({
            let w = normalized(wallet@);
            if blank(w) {
                r == Err::<(), RuleError>(RuleError::EmptyWallet)
            } else if !(1 <= card_id <= 365) {
                r == Err::<(), RuleError>(RuleError::CardIdOutOfRange)
            } else if !has_user(old(db).users@, w) {
                r == Err::<(), RuleError>(RuleError::UserNotFound)
            } else if !has_favorite(old(db).favorites@, w, card_id) && old(db).next_id == u64::MAX {
                r == Err::<(), RuleError>(RuleError::IdsExhausted)
            } else {
                r is Ok
            }
        }),
        r is Err ==> *final(db) == *old(db),
        r is Ok ==> favorite_toggled(*old(db), *final(db), normalized(wallet@), card_id, now, opt_view(note)),
{
    let wallet_norm = normalize_wallet(wallet.as_str());
    if is_blank(wallet_norm.as_str()) {
        return Err(RuleError::EmptyWallet);
    }
    if card_id == 0 || card_id > 365 {
        return Err(RuleError::CardIdOutOfRange);
    }
    match find_user(&db.users, &wallet_norm) {
        Some(i) => {
            proof {
                assert(db.users@[i as int].wallet@ == wallet_norm@);
            }
        },
        None => {
            return Err(RuleError::UserNotFound);
        },
    }
    let mut k: usize = 0;
    while k < db.favorites.len()
        invariant
            k <= db.favorites@.len(),
            *db == *old(db),
            wallet_norm@ == normalized(wallet@),
            !blank(normalized(wallet@)),
            1 <= card_id <= 365,
            has_user(db.users@, wallet_norm@),
            forall|j: int|
                0 <= j < k ==> !((#[trigger] db.favorites@[j]).wallet@ == wallet_norm@
                    && db.favorites@[j].card_id == card_id),
        decreases db.favorites@.len() - k,
    {
        if db.favorites[k].wallet == wallet_norm && db.favorites[k].card_id == card_id {
            proof {
                assert(first_favorite(db.favorites@, wallet_norm@, card_id, k as int));
            }
            let _removed = db.favorites.remove(k);
            return Ok(());
        }
        k = k + 1;
    }
    if db.next_id == u64::MAX {
        return Err(RuleError::IdsExhausted);
    }
    let id = db.next_id;
    db.next_id = id + 1;
    db.favorites.push(
        Favorite { id, wallet: wallet_norm, card_id, timestamp: now, note: clean_note(note) },
    );
    Ok(())
}

} // verus!
