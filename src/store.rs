//! The game's relations as one in-memory snapshot. Timestamps are
//! microseconds since the Unix epoch; rows with an `id` take it from the
//! snapshot's shared counter.

use vstd::prelude::*;

verus! {

pub struct User {
    pub wallet: String,
    pub username: String,
    pub total_xp: i64,
    pub level: u32,
    pub created_at: i64,
    pub updated_at: i64,
}

pub struct CardPull {
    pub id: u64,
    pub wallet: String,
    pub card_id: u32,
    pub timestamp: i64,
    pub date_string: String,
    pub pack_id: String,
}

pub struct Achievement {
    pub id: u64,
    pub wallet: String,
    pub achievement_id: String,
    pub unlocked_at: i64,
    pub seen: bool,
}

pub struct XPTransaction {
    pub id: u64,
    pub wallet: String,
    pub amount: i64,
    pub reason: String,
    pub timestamp: i64,
}

pub struct Favorite {
    pub id: u64,
    pub wallet: String,
    pub card_id: u32,
    pub timestamp: i64,
    pub note: Option<String>,
}

pub struct JournalEntry {
    pub id: u64,
    pub wallet: String,
    pub card_id: u32,
    pub date: i64,
    pub prompt1: String,
    pub prompt2: String,
    pub prompt3: String,
    pub word_count: u32,
    pub completed: bool,
}

pub struct JournalStreak {
    pub wallet: String,
    pub current_streak: u32,
    pub longest_streak: u32,
    pub last_entry: i64,
}

pub struct Referral {
    pub id: u64,
    pub referrer_wallet: String,
    pub referred_wallet: String,
    pub referred_username: String,
    pub timestamp: i64,
    pub completed: bool,
}

pub struct TimedPull {
    pub id: u64,
    pub wallet: String,
    pub card_id: u32,
    pub timestamp: i64,
    pub hour: u32,
    pub day_of_week: u32,
    pub is_morning: bool,
    pub is_evening: bool,
    pub is_weekend: bool,
}

pub struct FreePull {
    pub wallet: String,
    pub used: bool,
    pub timestamp: i64,
}

pub struct PackClaim {
    pub id: u64,
    pub wallet: String,
    pub pack_id: String,
    pub claim_timestamp: i64,
}

pub struct ActivePack {
    pub wallet: String,
    pub active_pack_id: String,
    pub last_switched: i64,
}

pub struct PackUsageStat {
    pub pack_id: String,
    pub usage_count: u64,
    pub last_used: i64,
}

pub struct VibeBalance {
    pub wallet: String,
    pub balance: i64,
    pub updated_at: i64,
}

/// What an e-mail address was left for.
#[derive(Debug, Clone, Copy, PartialEq, Eq, Structural)]
pub enum ActionType {
    Signup,
    Reminder,
    Raffle,
}

/// A raffle entry. Its weight, `usd_value`, is counted in millionths of a
/// US dollar.
pub struct RaffleEntry {
    pub id: u64,
    pub wallet: String,
    pub username: String,
    pub email: String,
    pub token_balance: String,
    pub usd_value: u64,
    pub timestamp: i64,
    pub entry_hash: String,
}

pub struct EmailCapture {
    pub id: u64,
    pub email: String,
    pub username: String,
    pub action: ActionType,
    pub wallet: Option<String>,
    pub timestamp: i64,
    pub notified: bool,
}

/// A snapshot of every relation, and the next free row id.
pub struct Db {
    pub users: Vec<User>,
    pub card_pulls: Vec<CardPull>,
    pub achievements: Vec<Achievement>,
    pub xp_transactions: Vec<XPTransaction>,
    pub favorites: Vec<Favorite>,
    pub journal_entries: Vec<JournalEntry>,
    pub journal_streaks: Vec<JournalStreak>,
    pub referrals: Vec<Referral>,
    pub timed_pulls: Vec<TimedPull>,
    pub free_pulls: Vec<FreePull>,
    pub pack_claims: Vec<PackClaim>,
    pub active_packs: Vec<ActivePack>,
    pub pack_usage_stats: Vec<PackUsageStat>,
    pub vibe_balances: Vec<VibeBalance>,
    pub raffle_entries: Vec<RaffleEntry>,
    pub email_captures: Vec<EmailCapture>,
    pub next_id: u64,
}

impl Db {
    /// A snapshot with no rows, handing out ids from 1.
    pub fn new() -> (r: Db)
        ensures
            r.users@.len() == 0,
            r.card_pulls@.len() == 0,
            r.achievements@.len() == 0,
            r.xp_transactions@.len() == 0,
            r.favorites@.len() == 0,
            r.journal_entries@.len() == 0,
            r.journal_streaks@.len() == 0,
            r.referrals@.len() == 0,
            r.timed_pulls@.len() == 0,
            r.free_pulls@.len() == 0,
            r.pack_claims@.len() == 0,
            r.active_packs@.len() == 0,
            r.pack_usage_stats@.len() == 0,
            r.vibe_balances@.len() == 0,
            r.raffle_entries@.len() == 0,
            r.email_captures@.len() == 0,
            r.next_id == 1,
            well_formed(r),
    {
        Db {
            users: Vec::new(),
            card_pulls: Vec::new(),
            achievements: Vec::new(),
            xp_transactions: Vec::new(),
            favorites: Vec::new(),
            journal_entries: Vec::new(),
            journal_streaks: Vec::new(),
            referrals: Vec::new(),
            timed_pulls: Vec::new(),
            free_pulls: Vec::new(),
            pack_claims: Vec::new(),
            active_packs: Vec::new(),
            pack_usage_stats: Vec::new(),
            vibe_balances: Vec::new(),
            raffle_entries: Vec::new(),
            email_captures: Vec::new(),
            next_id: 1,
        }
    }
}

/// No two users share a wallet.
pub open spec fn users_unique(rows: Seq<User>) -> bool {
    forall|i: int, j: int|
        0 <= i < rows.len() && 0 <= j < rows.len() && i != j ==> (#[trigger] rows[i]).wallet@
            != (#[trigger] rows[j]).wallet@
}

/// No wallet unlocked the same achievement twice.
pub open spec fn achievements_unique(rows: Seq<Achievement>) -> bool {
    forall|i: int, j: int|
        0 <= i < rows.len() && 0 <= j < rows.len() && i != j ==> !((#[trigger] rows[i]).wallet@
            == (#[trigger] rows[j]).wallet@ && rows[i].achievement_id@ == rows[j].achievement_id@)
}

/// No wallet holds two favorites of one card.
pub open spec fn favorites_unique(rows: Seq<Favorite>) -> bool {
    forall|i: int, j: int|
        0 <= i < rows.len() && 0 <= j < rows.len() && i != j ==> !((#[trigger] rows[i]).wallet@
            == (#[trigger] rows[j]).wallet@ && rows[i].card_id == rows[j].card_id)
}

/// One streak record per wallet.
pub open spec fn streaks_unique(rows: Seq<JournalStreak>) -> bool {
    forall|i: int, j: int|
        0 <= i < rows.len() && 0 <= j < rows.len() && i != j ==> (#[trigger] rows[i]).wallet@
            != (#[trigger] rows[j]).wallet@
}

/// One free-pull record per wallet.
pub open spec fn free_pulls_unique(rows: Seq<FreePull>) -> bool {
    forall|i: int, j: int|
        0 <= i < rows.len() && 0 <= j < rows.len() && i != j ==> (#[trigger] rows[i]).wallet@
            != (#[trigger] rows[j]).wallet@
}

/// One usage counter per pack.
pub open spec fn pack_stats_unique(rows: Seq<PackUsageStat>) -> bool {
    forall|i: int, j: int|
        0 <= i < rows.len() && 0 <= j < rows.len() && i != j ==> (#[trigger] rows[i]).pack_id@
            != (#[trigger] rows[j]).pack_id@
}

/// The keys of the keyed relations are unique.
pub open spec fn well_formed(db: Db) -> bool {
    &&& users_unique(db.users@)
    &&& achievements_unique(db.achievements@)
    &&& favorites_unique(db.favorites@)
    &&& streaks_unique(db.journal_streaks@)
    &&& free_pulls_unique(db.free_pulls@)
    &&& pack_stats_unique(db.pack_usage_stats@)
}

/// Whether a user with wallet `w` exists.
pub open spec fn has_user(users: Seq<User>, w: Seq<char>) -> bool {
    exists|i: int| 0 <= i < users.len() && #[trigger] users[i].wallet@ == w
}

/// `i` is the first user whose wallet is `w`.
pub open spec fn first_user(users: Seq<User>, w: Seq<char>, i: int) -> bool {
    0 <= i < users.len() && users[i].wallet@ == w && forall|j: int|
        0 <= j < i ==> #[trigger] users[j].wallet@ != w
}

/// Position of the first user whose wallet equals `w`.
pub fn find_user(users: &Vec<User>, w: &String) -> (r: Option<usize>)
    ensures
        match r {
            Some(i) => first_user(users@, w@, i as int),
            None => !has_user(users@, w@),
        },
{
    let mut i: usize = 0;
    while i < users.len()
        invariant
            i <= users@.len(),
            forall|j: int| 0 <= j < i ==> #[trigger] users@[j].wallet@ != w@,
        decreases users@.len() - i,
    {
        if users[i].wallet == *w {
            return Some(i);
        }
        i = i + 1;
    }
    None
}

} // verus!
