//! Journal entries, one per wallet, card and calendar day, and the streak of
//! consecutive journaling days.

use vstd::prelude::*;
use crate::calendar::{day_number_from_timestamp, day_of};
use crate::error::RuleError;
use crate::progression::blank;
use crate::store::{well_formed, find_user, has_user, Db, JournalEntry, JournalStreak};
use crate::text::{is_blank, normalize_wallet, normalized};

verus! {

/// An entry of wallet `w` for card `c` written on the calendar day `day`.
pub open spec fn same_day_entry(e: JournalEntry, w: Seq<char>, c: u32, day: int) -> bool {
    e.wallet@ == w && e.card_id == c && day_of(e.date as int) == day
}

/// `i` is the first entry of wallet `w` for card `c` on day `day`.
pub open spec fn first_same_day(rows: Seq<JournalEntry>, w: Seq<char>, c: u32, day: int, i: int) -> bool {
    0 <= i < rows.len() && same_day_entry(rows[i], w, c, day) && forall|j: int|
        0 <= j < i ==> !same_day_entry(#[trigger] rows[j], w, c, day)
}

/// Whether such an entry exists.
pub open spec fn has_same_day(rows: Seq<JournalEntry>, w: Seq<char>, c: u32, day: int) -> bool {
    exists|i: int| 0 <= i < rows.len() && same_day_entry(#[trigger] rows[i], w, c, day)
}

/// `i` is the first streak record of wallet `w`.
pub open spec fn first_streak(rows: Seq<JournalStreak>, w: Seq<char>, i: int) -> bool {
    0 <= i < rows.len() && rows[i].wallet@ == w && forall|j: int|
        0 <= j < i ==> (#[trigger] rows[j]).wallet@ != w
}

/// Whether wallet `w` has a streak record.
pub open spec fn has_streak(rows: Seq<JournalStreak>, w: Seq<char>) -> bool {
    exists|i: int| 0 <= i < rows.len() && (#[trigger] rows[i]).wallet@ == w
}

/// The streak after an entry for a new day dated `date`: the next day extends
/// it, a later day starts it over at 1, and the same or an earlier day leaves
/// it as it was.
pub open spec fn streak_after(s: JournalStreak, date: i64) -> JournalStreak {
    let last = day_of(s.last_entry as int);
    let new = day_of(date as int);
    if new > last {
        let current: u32 = if new - last == 1 {
            if s.current_streak == u32::MAX {
                u32::MAX
            } else {
                (s.current_streak + 1) as u32
            }
        } else {
            1
        };
        JournalStreak {
            current_streak: current,
            longest_streak: if current > s.longest_streak {
                current
            } else {
                s.longest_streak
            },
            last_entry: date,
            ..s
        }
    } else {
        s
    }
}

/// The next state of a streak record after a journal entry for a new day.
pub fn advance_streak(s: &JournalStreak, date: i64) -> (r: JournalStreak)
    ensures
        r == streak_after(*s, date),
{
    let last_day = day_number_from_timestamp(s.last_entry);
    let new_day = day_number_from_timestamp(date);
    if new_day > last_day {
        let mut current: u32 = if new_day - last_day == 1 {
            if s.current_streak == u32::MAX {
                u32::MAX
            } else {
                s.current_streak + 1
            }
        } else {
            1
        };
        if current == 0 {
            current = 1;
        }
        let longest = if current > s.longest_streak {
            current
        } else {
            s.longest_streak
        };
        JournalStreak {
            wallet: s.wallet.clone(),
            current_streak: current,
            longest_streak: longest,
            last_entry: date,
        }
    } else {
        JournalStreak {
            wallet: s.wallet.clone(),
            current_streak: s.current_streak,
            longest_streak: s.longest_streak,
            last_entry: s.last_entry,
        }
    }
}

/// The streak relation after a new-day entry of wallet `w` dated `date`.
pub open spec fn streaks_after(old_rows: Seq<JournalStreak>, new_rows: Seq<JournalStreak>, w: Seq<char>, date: i64) -> bool {
    if has_streak(old_rows, w) {
        exists|i: int|
            #[trigger] first_streak(old_rows, w, i) && new_rows == old_rows.update(
                i,
                streak_after(old_rows[i], date),
            )
    } else {
        let s = new_rows.last();
        &&& new_rows == old_rows.push(s)
        &&& s.wallet@ == w
        &&& s.current_streak == 1
        &&& s.longest_streak == 1
        &&& s.last_entry == date
    }
}

/// Moves the streak of wallet `w` on for a new-day entry, or starts it.
fn update_streak(streaks: &mut Vec<JournalStreak>, w: String, date: i64)
    ensures
        streaks_after(old(streaks)@, final(streaks)@, w@, date),
{
    let mut s: usize = 0;
    while s < streaks.len()
        invariant
            s <= streaks@.len(),
            *streaks == *old(streaks),
            forall|j: int| 0 <= j < s ==> (#[trigger] streaks@[j]).wallet@ != w@,
        decreases streaks@.len() - s,
    {
        if streaks[s].wallet == w {
            proof {
                assert(first_streak(streaks@, w@, s as int));
            }
            let next = advance_streak(&streaks[s], date);
            streaks.set(s, next);
            return;
        }
        s = s + 1;
    }
    streaks.push(JournalStreak { wallet: w, current_streak: 1, longest_streak: 1, last_entry: date });
}

/// Saves the journal entry of a card for the day of `date`. A second save on
/// the same calendar day rewrites the entry and leaves the streak alone; the
/// first save of a day adds an entry and moves the streak on.
pub fn save_journal_entry(
    db: &mut Db,
    wallet: String,
    card_id: u32,
    date: i64,
    prompt1: String,
    prompt2: String,
    prompt3: String,
    word_count: u32,
    completed: bool,
) -> (r: Result<(), RuleError>)
    ensures
        well_formed(*old(db)) ==> well_formed(*final(db)),
        ({
            let w = normalized(wallet@);
            if blank(w) {
                r == Err::<(), RuleError>(RuleError::EmptyWallet)
            } else if !(1 <= card_id <= 365) {
                r == Err::<(), RuleError>(RuleError::CardIdOutOfRange)
            } else if !has_user(old(db).users@, w) {
                r == Err::<(), RuleError>(RuleError::UserNotFound)
            } else if !has_same_day(old(db).journal_entries@, w, card_id, day_of(date as int))
                && old(db).next_id == u64::MAX {
                r == Err::<(), RuleError>(RuleError::IdsExhausted)
            } else {
                r is Ok
            }
        }),
        r is Err ==> *final(db) == *old(db),
        r is Ok ==> {
            let w = normalized(wallet@);
            let day = day_of(date as int);
            if has_same_day(old(db).journal_entries@, w, card_id, day) {
                &&& exists|i: int|
                    #[trigger] first_same_day(old(db).journal_entries@, w, card_id, day, i) && {
                        let e = final(db).journal_entries@[i];
                        &&& final(db).journal_entries@ == old(db).journal_entries@.update(i, e)
                        &&& e == (JournalEntry {
                            date: date,
                            prompt1: e.prompt1,
                            prompt2: e.prompt2,
                            prompt3: e.prompt3,
                            word_count: word_count,
                            completed: completed,
                            ..old(db).journal_entries@[i]
                        })
                        &&& e.prompt1 == prompt1
                        &&& e.prompt2 == prompt2
                        &&& e.prompt3 == prompt3
                    }
                &&& *final(db) == (Db { journal_entries: final(db).journal_entries, ..*old(db) })
            } else {
                let e = final(db).journal_entries@.last();
                &&& final(db).journal_entries@ == old(db).journal_entries@.push(e)
                &&& e.id == old(db).next_id
                &&& e.wallet@ == w
                &&& e.card_id == card_id
                &&& e.date == date
                &&& e.prompt1 == prompt1
                &&& e.prompt2 == prompt2
                &&& e.prompt3 == prompt3
                &&& e.word_count == word_count
                &&& e.completed == completed
                &&& streaks_after(old(db).journal_streaks@, final(db).journal_streaks@, w, date)
                &&& *final(db) == (Db {
                    journal_entries: final(db).journal_entries,
                    journal_streaks: final(db).journal_streaks,
                    next_id: (old(db).next_id + 1) as u64,
                    ..*old(db)
                })
            }
        },
{
    let wallet_norm = normalize_wallet(wallet.as_str());
    if is_blank(wallet_norm.as_str()) {
        return Err(RuleError::EmptyWallet);
    }
    if card_id == 0 || card_id > 365 {
        return Err(RuleError::CardIdOutOfRange);
    }
    match find_user(&db.users, &wallet_norm) {
        Some(i) => {
            proof {
                assert(db.users@[i as int].wallet@ == wallet_norm@);
            }
        },
        None => {
            return Err(RuleError::UserNotFound);
        },
    }
    let entry_day = day_number_from_timestamp(date);
    let mut k: usize = 0;
    while k < db.journal_entries.len()
        invariant
            k <= db.journal_entries@.len(),
            *db == *old(db),
            wallet_norm@ == normalized(wallet@),
            !blank(normalized(wallet@)),
            1 <= card_id <= 365,
            has_user(db.users@, wallet_norm@),
            entry_day == day_of(date as int),
            forall|j: int|
                0 <= j < k ==> !same_day_entry(
                    #[trigger] db.journal_entries@[j],
                    wallet_norm@,
                    card_id,
                    entry_day as int,
                ),
        decreases db.journal_entries@.len() - k,
    {
        let e = &db.journal_entries[k];
        if e.wallet == wallet_norm && e.card_id == card_id && day_number_from_timestamp(e.date)
            == entry_day {
            proof {
                assert(first_same_day(
                    db.journal_entries@,
                    wallet_norm@,
                    card_id,
                    entry_day as int,
                    k as int,
                ));
            }
            let row = JournalEntry {
                id: e.id,
                wallet: e.wallet.clone(),
                card_id: e.card_id,
                date,
                prompt1,
                prompt2,
                prompt3,
                word_count,
                completed,
            };
            db.journal_entries.set(k, row);
            return Ok(());
        }
        k = k + 1;
    }
    if db.next_id == u64::MAX {
        return Err(RuleError::IdsExhausted);
    }
    let id = db.next_id;
    db.next_id = id + 1;
    db.journal_entries.push(
        JournalEntry {
            id,
            wallet: wallet_norm.clone(),
            card_id,
            date,
            prompt1,
            prompt2,
            prompt3,
            word_count,
            completed,
        },
    );
    update_streak(&mut db.journal_streaks, wallet_norm, date);
    Ok(())
}

} // verus!
