//! Raffle entries, e-mail captures and the weighted draw of a winner.

use vstd::prelude::*;
use crate::entry_hash::{entry_hash_of, generate_entry_hash};
use crate::error::RuleError;
use crate::progression::blank;
use crate::rng::{next_rand_u64, scramble, seed_from_timestamp, seed_of, xorshift};
use crate::store::{well_formed, ActionType, Db, EmailCapture, RaffleEntry};
use crate::text::{contains_char, is_blank, normalize_email, normalize_wallet, normalized, opt_view, trim_owned, trimmed};

verus! {

/// 2^64, the number of values a draw can take.
pub open spec fn draw_range() -> int {
    0x1_0000_0000_0000_0000
}

/// Sum of the first `k` weights.
pub open spec fn weight_prefix(ws: Seq<u64>, k: int) -> int
    decreases k,
{
    if k <= 0 || k > ws.len() {
        0
    } else {
        weight_prefix(ws, k - 1) + ws[k - 1]
    }
}

/// Sum of all weights.
pub open spec fn weight_total(ws: Seq<u64>) -> int {
    weight_prefix(ws, ws.len() as int)
}

/// `i` is the entry that the draw `draw` picks. With some weight, that is
/// the first entry whose running weight reaches `draw / 2^64` of the total;
/// with none, the draw modulo the number of entries.
pub open spec fn picks(ws: Seq<u64>, draw: int, i: int) -> bool {
    if weight_total(ws) > 0 {
        &&& 0 <= i < ws.len()
        &&& weight_prefix(ws, i + 1) * draw_range() >= draw * weight_total(ws)
        &&& forall|j: int|
            0 <= j < i ==> #[trigger] weight_prefix(ws, j + 1) * draw_range() < draw * weight_total(
                ws,
            )
    } else {
        i == draw % (ws.len() as int)
    }
}

/// The weights of the entries, in order.
pub open spec fn weights_of(entries: Seq<RaffleEntry>) -> Seq<u64> {
    Seq::new(entries.len(), |i: int| entries[i].usd_value)
}

/// The number the draw at `micros` takes.
pub open spec fn draw_at(micros: i64) -> u64 {
    scramble(xorshift(seed_of(micros)))
}

proof fn lemma_split(draw: int, t: int, th: int, tl: int, mh: int, ml: int)
    requires
        0 <= draw < draw_range(),
        t == th * draw_range() + tl,
        0 <= th,
        0 <= tl < draw_range(),
        draw * tl == mh * draw_range() + ml,
        0 <= ml < draw_range(),
        0 <= mh,
        t > 0,
    ensures
        draw * t == (draw * th + mh) * draw_range() + ml,
        draw * th + mh < t,
{
    assert(draw * t == (draw * th + mh) * draw_range() + ml) by (nonlinear_arith)
        requires
            t == th * draw_range() + tl,
            draw * tl == mh * draw_range() + ml,
    ;
    assert(draw * t < draw_range() * t) by (nonlinear_arith)
        requires
            0 <= draw < draw_range(),
            t > 0,
    ;
    assert((draw * th + mh) * draw_range() < t * draw_range());
    assert(draw * th + mh < t) by (nonlinear_arith)
        requires
            (draw * th + mh) * draw_range() < t * draw_range(),
            draw_range() > 0,
    ;
}

proof fn lemma_reaches_iff(p: int, q: int, ml: int, x: int)
    requires
        x == q * draw_range() + ml,
        0 <= ml < draw_range(),
    ensures
        (p * draw_range() >= x) <==> (p > q || (p == q && ml == 0)),
{
    if p > q {
        assert(p * draw_range() >= (q + 1) * draw_range()) by (nonlinear_arith)
            requires
                p >= q + 1,
        ;
    } else if p < q {
        assert(p * draw_range() <= (q - 1) * draw_range()) by (nonlinear_arith)
            requires
                p <= q - 1,
        ;
    }
}

/// The entry that the draw `draw` picks among entries of the given weights.
pub fn pick_weighted(weights: &Vec<u64>, draw: u64) -> (r: usize)
    requires
        weights@.len() > 0,
    ensures
        picks(weights@, draw as int, r as int),
{
    let n = weights.len();
    let mut total: u128 = 0;
    let mut i: usize = 0;
    while i < n
        invariant
            n == weights@.len(),
            i <= n,
            total == weight_prefix(weights@, i as int),
            total <= i * 0xffff_ffff_ffff_ffff,
        decreases n - i,
    {
        total = total + weights[i] as u128;
        i = i + 1;
    }
    if total == 0 {
        return ((draw as u128) % (n as u128)) as usize;
    }
    let high: u128 = total / 0x1_0000_0000_0000_0000;
    let low: u128 = total % 0x1_0000_0000_0000_0000;
    proof {
        assert((draw as int) * (low as int) <= 0xffff_ffff_ffff_ffff * 0xffff_ffff_ffff_ffff)
            by (nonlinear_arith)
            requires
                draw <= 0xffff_ffff_ffff_ffff,
                low <= 0xffff_ffff_ffff_ffff,
        ;
    }
    let product: u128 = (draw as u128) * low;
    let product_high: u128 = product / 0x1_0000_0000_0000_0000;
    let product_low: u128 = product % 0x1_0000_0000_0000_0000;
    proof {
        assert((draw as int) * (high as int) <= 0xffff_ffff_ffff_ffff * (high as int))
            by (nonlinear_arith)
            requires
                draw <= 0xffff_ffff_ffff_ffff,
        ;
        lemma_split(
            draw as int,
            total as int,
            high as int,
            low as int,
            product_high as int,
            product_low as int,
        );
    }
    // draw * total == target * 2^64 + product_low
    let target: u128 = (draw as u128) * high + product_high;
    let mut acc: u128 = 0;
    let mut k: usize = 0;
    while k < n
        invariant
            n == weights@.len(),
            k <= n,
            total == weight_total(weights@),
            total > 0,
            acc == weight_prefix(weights@, k as int),
            acc <= total,
            (draw as int) * (total as int) == (target as int) * draw_range() + product_low,
            product_low < draw_range(),
            forall|j: int|
                0 <= j < k ==> #[trigger] weight_prefix(weights@, j + 1) * draw_range() < (draw as int)
                    * weight_total(weights@),
        decreases n - k,
    {
        proof {
            lemma_prefix_monotone(weights@, k + 1, n as int);
        }
        acc = acc + weights[k] as u128;
        proof {
            lemma_reaches_iff(
                acc as int,
                target as int,
                product_low as int,
                (draw as int) * (total as int),
            );
        }
        if acc > target || (acc == target && product_low == 0) {
            return k;
        }
        k = k + 1;
    }
    proof {
        assert((total as int) * draw_range() >= (draw as int) * (total as int)) by (nonlinear_arith)
            requires
                draw < draw_range(),
                total > 0,
        ;
        let last = (n - 1) as int;
        assert(weight_prefix(weights@, last + 1) * draw_range() < (draw as int) * weight_total(
            weights@,
        ));
        assert(false);
    }
    n - 1
}

proof fn lemma_prefix_monotone(ws: Seq<u64>, a: int, b: int)
    requires
        0 <= a <= b <= ws.len(),
    ensures
        weight_prefix(ws, a) <= weight_prefix(ws, b),
    decreases b - a,
{
    if a < b {
        lemma_prefix_monotone(ws, a, b - 1);
    }
}

/// With some weight, the draw `draw` picks entry `i` exactly when
/// `draw * total` lies in the slice of `i`: above `2^64` times the weight
/// before it, and at most `2^64` times the weight up to and including it. Each
/// entry thus takes a share of the `2^64` draws in proportion to its weight;
/// an entry of weight zero is picked by the draw zero alone, and only as the
/// first entry.
pub proof fn pick_is_weight_slice(ws: Seq<u64>, draw: int, i: int)
    requires
        weight_total(ws) > 0,
        0 <= i < ws.len(),
        0 <= draw < draw_range(),
    ensures
        picks(ws, draw, i) <==> ((i == 0 || weight_prefix(ws, i) * draw_range() < draw
            * weight_total(ws)) && draw * weight_total(ws) <= weight_prefix(ws, i + 1)
            * draw_range()),
        picks(ws, draw, i) && ws[i] == 0 ==> i == 0 && draw == 0,
{
    let t = weight_total(ws);
    if picks(ws, draw, i) && i > 0 {
        assert(weight_prefix(ws, (i - 1) + 1) * draw_range() < draw * t);
    }
    if (i == 0 || weight_prefix(ws, i) * draw_range() < draw * t) && draw * t <= weight_prefix(
        ws,
        i + 1,
    ) * draw_range() {
        assert forall|j: int| 0 <= j < i implies #[trigger] weight_prefix(ws, j + 1) * draw_range()
            < draw * t by {
            lemma_prefix_monotone(ws, j + 1, i);
            assert(weight_prefix(ws, j + 1) * draw_range() <= weight_prefix(ws, i) * draw_range())
                by (nonlinear_arith)
                requires
                    weight_prefix(ws, j + 1) <= weight_prefix(ws, i),
            ;
        }
    }
    if picks(ws, draw, i) && ws[i] == 0 {
        assert(weight_prefix(ws, i + 1) == weight_prefix(ws, i));
        if i == 0 {
            assert(weight_prefix(ws, 0) == 0);
            assert(draw * t <= 0);
            assert(draw == 0) by (nonlinear_arith)
                requires
                    draw * t <= 0,
                    draw >= 0,
                    t > 0,
            ;
        }
    }
}

/// Draws the raffle winner at `micros`: the position of the picked entry.
pub fn select_weighted_winner(db: &Db, now: i64) -> (r: Result<usize, RuleError>)
    ensures
        db.raffle_entries@.len() == 0 ==> r == Err::<usize, RuleError>(RuleError::NoRaffleEntries),
        db.raffle_entries@.len() > 0 ==> r is Ok && picks(
            weights_of(db.raffle_entries@),
            draw_at(now) as int,
            r->Ok_0 as int,
        ),
{
    let entries = &db.raffle_entries;
    if entries.len() == 0 {
        return Err(RuleError::NoRaffleEntries);
    }
    let mut weights: Vec<u64> = Vec::new();
    let mut i: usize = 0;
    while i < entries.len()
        invariant
            i <= entries@.len(),
            weights@ == weights_of(entries@).subrange(0, i as int),
        decreases entries@.len() - i,
    {
        weights.push(entries[i].usd_value);
        proof {
            assert(weights@ =~= weights_of(entries@).subrange(0, i + 1));
        }
        i = i + 1;
    }
    proof {
        assert(weights@ =~= weights_of(entries@));
    }
    let mut seed = seed_from_timestamp(now);
    let draw = next_rand_u64(&mut seed);
    Ok(pick_weighted(&weights, draw))
}

/// Number of raffle entries.
pub fn get_raffle_count(db: &Db) -> (r: usize)
    ensures
        r == db.raffle_entries@.len(),
{
    db.raffle_entries.len()
}

/// Number of raffle entries available for the draw.
pub fn get_raffle_entries(db: &Db) -> (r: usize)
    ensures
        r == db.raffle_entries@.len(),
{
    db.raffle_entries.len()
}

/// The optional wallet of a capture, normalized.
pub open spec fn opt_normalized(o: Option<String>) -> Option<Seq<char>> {
    match o {
        Some(s) => Some(normalized(s@)),
        None => None,
    }
}

/// A capture of the normalized e-mail `em` for `action` and wallet `w`.
pub open spec fn capture_matches(c: EmailCapture, em: Seq<char>, action: ActionType, w: Option<Seq<char>>) -> bool {
    normalized(c.email@) == em && c.action == action && opt_normalized(c.wallet) == w
}

/// Whether `rows` hold such a capture.
pub open spec fn has_capture(rows: Seq<EmailCapture>, em: Seq<char>, action: ActionType, w: Option<Seq<char>>) -> bool {
    exists|i: int| 0 <= i < rows.len() && capture_matches(#[trigger] rows[i], em, action, w)
}

/// Whether some entry's wallet normalizes to `w`.
pub open spec fn has_entry(rows: Seq<RaffleEntry>, w: Seq<char>) -> bool {
    exists|i: int| 0 <= i < rows.len() && normalized((#[trigger] rows[i]).wallet@) == w
}

/// An e-mail address is accepted when it is not blank and holds an `@`.
pub open spec fn valid_email(em: Seq<char>) -> bool {
    !blank(em) && em.contains('@')
}

fn normalize_opt_wallet(w: &Option<String>) -> (r: Option<String>)
    ensures
        opt_view(r) == opt_normalized(*w),
{
    match w {
        Some(s) => Some(normalize_wallet(s.as_str())),
        None => None,
    }
}

fn same_opt(a: &Option<String>, b: &Option<String>) -> (r: bool)
    ensures
        r == (opt_view(*a) == opt_view(*b)),
{
    match (a, b) {
        (Some(x), Some(y)) => *x == *y,
        (None, None) => true,
        _ => false,
    }
}

fn find_capture(rows: &Vec<EmailCapture>, em: &String, action: ActionType, w: &Option<String>) -> (r: bool)
    ensures
        r == has_capture(rows@, em@, action, opt_view(*w)),
{
    let mut k: usize = 0;
    while k < rows.len()
        invariant
            k <= rows@.len(),
            forall|j: int| 0 <= j < k ==> !capture_matches(#[trigger] rows@[j], em@, action, opt_view(*w)),
        decreases rows@.len() - k,
    {
        let c = &rows[k];
        let ce = normalize_email(c.email.as_str());
        let cw = normalize_opt_wallet(&c.wallet);
        if ce == *em && c.action == action && same_opt(&cw, w) {
            proof {
                assert(capture_matches(rows@[k as int], em@, action, opt_view(*w)));
            }
            return true;
        }
        k = k + 1;
    }
    false
}

/// Once an entry whose wallet normalizes to `w` is recorded, a second entry
/// for `w` is refused.
pub proof fn entered_wallet_refused(rows: Seq<RaffleEntry>, w: Seq<char>)
    requires
        rows.len() > 0,
        normalized(rows.last().wallet@) == w,
    ensures
        has_entry(rows, w),
{
    let last = (rows.len() - 1) as int;
    assert(normalized(rows[last].wallet@) == w);
}

/// Once a capture of `em` for `action` and wallet `w` is recorded, a second
/// capture of the same triple is refused.
pub proof fn captured_email_refused(rows: Seq<EmailCapture>, em: Seq<char>, action: ActionType, w: Option<Seq<char>>)
    requires
        rows.len() > 0,
        capture_matches(rows.last(), em, action, w),
    ensures
        has_capture(rows, em, action, w),
{
    let last = (rows.len() - 1) as int;
    assert(capture_matches(rows[last], em, action, w));
}

/// Enters a wallet into the raffle, once per wallet, and records its e-mail
/// address for the raffle unless that capture exists already.
pub fn enter_raffle(
    db: &mut Db,
    now: i64,
    wallet: String,
    username: String,
    email: String,
    token_balance: String,
    usd_value: u64,
) -> (r: Result<(), RuleError>)
    ensures
        well_formed(*old(db)) ==> well_formed(*final(db)),
        ({
            let w = normalized(wallet@);
            if blank(w) {
                r == Err::<(), RuleError>(RuleError::EmptyWallet)
            } else if blank(username@) {
                r == Err::<(), RuleError>(RuleError::EmptyUsername)
            } else if !valid_email(normalized(email@)) {
                r == Err::<(), RuleError>(RuleError::InvalidEmail)
            } else if blank(token_balance@) {
                r == Err::<(), RuleError>(RuleError::EmptyTokenBalance)
            } else if has_entry(old(db).raffle_entries@, w) {
                r == Err::<(), RuleError>(RuleError::AlreadyInRaffle)
            } else if old(db).next_id >= u64::MAX - 1 {
                r == Err::<(), RuleError>(RuleError::IdsExhausted)
            } else {
                r is Ok
            }
        }),
        r is Err ==> *final(db) == *old(db),
        r is Ok ==> {
            let w = normalized(wallet@);
            let em = normalized(email@);
            let e = final(db).raffle_entries@.last();
            &&& final(db).raffle_entries@ == old(db).raffle_entries@.push(e)
            &&& e.id == old(db).next_id
            &&& e.wallet@ == w
            &&& e.username@ == trimmed(username@)
            &&& e.email@ == em
            &&& e.token_balance@ == trimmed(token_balance@)
            &&& e.usd_value == usd_value
            &&& e.timestamp == now
            &&& e.entry_hash@ == entry_hash_of(w, em, now as int)
            &&& if has_capture(old(db).email_captures@, em, ActionType::Raffle, Some(w)) {
                *final(db) == (Db {
                    raffle_entries: final(db).raffle_entries,
                    next_id: (old(db).next_id + 1) as u64,
                    ..*old(db)
                })
            } else {
                let c = final(db).email_captures@.last();
                &&& final(db).email_captures@ == old(db).email_captures@.push(c)
                &&& c.id == old(db).next_id + 1
                &&& c.email@ == em
                &&& c.username@ == trimmed(username@)
                &&& c.action == ActionType::Raffle
                &&& opt_view(c.wallet) == Some(w)
                &&& c.timestamp == now
                &&& !c.notified
                &&& *final(db) == (Db {
                    raffle_entries: final(db).raffle_entries,
                    email_captures: final(db).email_captures,
                    next_id: (old(db).next_id + 2) as u64,
                    ..*old(db)
                })
            }
        },
{
    let wallet_norm = normalize_wallet(wallet.as_str());
    let uname = trim_owned(username.as_str());
    let email_norm = normalize_email(email.as_str());
    let tok_bal = trim_owned(token_balance.as_str());
    if is_blank(wallet_norm.as_str()) {
        return Err(RuleError::EmptyWallet);
    }
    if uname.as_str().is_empty() {
        return Err(RuleError::EmptyUsername);
    }
    if is_blank(email_norm.as_str()) || !contains_char(email_norm.as_str(), '@') {
        return Err(RuleError::InvalidEmail);
    }
    if tok_bal.as_str().is_empty() {
        return Err(RuleError::EmptyTokenBalance);
    }
    let mut k: usize = 0;
    while k < db.raffle_entries.len()
        invariant
            k <= db.raffle_entries@.len(),
            *db == *old(db),
            wallet_norm@ == normalized(wallet@),
            uname@ == trimmed(username@),
            email_norm@ == normalized(email@),
            tok_bal@ == trimmed(token_balance@),
            !blank(normalized(wallet@)),
            !blank(username@),
            valid_email(normalized(email@)),
            !blank(token_balance@),
            forall|j: int|
                0 <= j < k ==> normalized((#[trigger] db.raffle_entries@[j]).wallet@) != wallet_norm@,
        decreases db.raffle_entries@.len() - k,
    {
        if normalize_wallet(db.raffle_entries[k].wallet.as_str()) == wallet_norm {
            proof {
                assert(normalized(db.raffle_entries@[k as int].wallet@) == wallet_norm@);
            }
            return Err(RuleError::AlreadyInRaffle);
        }
        k = k + 1;
    }
    if db.next_id >= u64::MAX - 1 {
        return Err(RuleError::IdsExhausted);
    }
    let entry_hash = generate_entry_hash(wallet_norm.as_str(), email_norm.as_str(), now);
    let some_wallet = Some(wallet_norm.clone());
    let exists = find_capture(&db.email_captures, &email_norm, ActionType::Raffle, &some_wallet);
    let id = db.next_id;
    db.raffle_entries.push(
        RaffleEntry {
            id,
            wallet: wallet_norm,
            username: uname.clone(),
            email: email_norm.clone(),
            token_balance: tok_bal,
            usd_value,
            timestamp: now,
            entry_hash,
        },
    );
    if exists {
        db.next_id = id + 1;
    } else {
        db.next_id = id + 2;
        db.email_captures.push(
            EmailCapture {
                id: id + 1,
                email: email_norm,
                username: uname,
                action: ActionType::Raffle,
                wallet: some_wallet,
                timestamp: now,
                notified: false,
            },
        );
    }
    Ok(())
}

/// Records an e-mail address left for `action`, once per address, action and
/// wallet.
pub fn capture_email(
    db: &mut Db,
    now: i64,
    email: String,
    username: String,
    action: ActionType,
    wallet: Option<String>,
) -> (r: Result<(), RuleError>)
    ensures
        well_formed(*old(db)) ==> well_formed(*final(db)),
        ({
            let em = normalized(email@);
            if !valid_email(em) {
                r == Err::<(), RuleError>(RuleError::InvalidEmail)
            } else if blank(username@) {
                r == Err::<(), RuleError>(RuleError::EmptyUsername)
            } else if has_capture(old(db).email_captures@, em, action, opt_normalized(wallet)) {
                r == Err::<(), RuleError>(RuleError::EmailCaptured)
            } else if old(db).next_id == u64::MAX {
                r == Err::<(), RuleError>(RuleError::IdsExhausted)
            } else {
                r is Ok
            }
        }),
        r is Err ==> *final(db) == *old(db),
        r is Ok ==> {
            let c = final(db).email_captures@.last();
            &&& final(db).email_captures@ == old(db).email_captures@.push(c)
            &&& c.id == old(db).next_id
            &&& c.email@ == normalized(email@)
            &&& c.username@ == trimmed(username@)
            &&& c.action == action
            &&& opt_view(c.wallet) == opt_normalized(wallet)
            &&& c.timestamp == now
            &&& !c.notified
            &&& *final(db) == (Db {
                email_captures: final(db).email_captures,
                next_id: (old(db).next_id + 1) as u64,
                ..*old(db)
            })
        },
{
    let email_norm = normalize_email(email.as_str());
    let uname = trim_owned(username.as_str());
    let wallet_norm = normalize_opt_wallet(&wallet);
    if is_blank(email_norm.as_str()) || !contains_char(email_norm.as_str(), '@') {
        return Err(RuleError::InvalidEmail);
    }
    if uname.as_str().is_empty() {
        return Err(RuleError::EmptyUsername);
    }
    if find_capture(&db.email_captures, &email_norm, action, &wallet_norm) {
        return Err(RuleError::EmailCaptured);
    }
    if db.next_id == u64::MAX {
        return Err(RuleError::IdsExhausted);
    }
    let id = db.next_id;
    db.next_id = id + 1;
    db.email_captures.push(
        EmailCapture {
            id,
            email: email_norm,
            username: uname,
            action,
            wallet: wallet_norm,
            timestamp: now,
            notified: false,
        },
    );
    Ok(())
}

} // verus!
