//! The fingerprint of a raffle entry: 64-bit FNV-1a over
//! `wallet|email|micros`, written as 16 lowercase hex digits.

use vstd::prelude::*;
use vstd::utf8::encode_utf8;
use crate::text::push_char;

verus! {

pub const FNV_OFFSET_BASIS: u64 = 0xcbf29ce484222325;

pub const FNV_PRIME: u64 = 0x100000001b3;

/// One FNV-1a round: mix in the byte, then multiply modulo 2^64.
pub open spec fn fnv_step(h: u64, b: u8) -> u64 {
    (h ^ (b as u64)).wrapping_mul(FNV_PRIME)
}

/// FNV-1a rounds over `bytes`, starting from `h`.
pub open spec fn fnv_from(h: u64, bytes: Seq<u8>) -> u64
    decreases bytes.len(),
{
    if bytes.len() == 0 {
        h
    } else {
        fnv_step(fnv_from(h, bytes.drop_last()), bytes.last())
    }
}

/// 64-bit FNV-1a of `bytes`.
pub open spec fn fnv1a(bytes: Seq<u8>) -> u64 {
    fnv_from(FNV_OFFSET_BASIS, bytes)
}

/// Decimal digits of `n`, most significant first.
pub open spec fn decimal_digits(n: nat) -> Seq<u8>
    decreases n,
{
    if n < 10 {
        seq![(48 + n) as u8]
    } else {
        decimal_digits(n / 10).push((48 + n % 10) as u8)
    }
}

/// Decimal text of `v`, with a leading `-` when negative.
pub open spec fn decimal_text(v: int) -> Seq<u8> {
    if v < 0 {
        seq![45u8] + decimal_digits((-v) as nat)
    } else {
        decimal_digits(v as nat)
    }
}

/// The bytes hashed for an entry: `wallet|email|micros` in UTF-8.
pub open spec fn entry_message(wallet: Seq<char>, email: Seq<char>, micros: int) -> Seq<u8> {
    encode_utf8(wallet) + seq![124u8] + encode_utf8(email) + seq![124u8] + decimal_text(micros)
}

/// The lowercase hex digit of `d`, for `d < 16`.
pub open spec fn hex_digit_of(d: u64) -> char {
    if d < 10 {
        seq!['0', '1', '2', '3', '4', '5', '6', '7', '8', '9'][d as int]
    } else {
        seq!['a', 'b', 'c', 'd', 'e', 'f'][(d - 10) as int]
    }
}

/// `h` as 16 lowercase hex digits, most significant first.
pub open spec fn hex_text(h: u64) -> Seq<char> {
    Seq::new(16, |i: int| hex_digit_of((h >> ((60 - 4 * i) as u64)) & 15u64))
}

/// The fingerprint of an entry of `wallet` and `email` made at `micros`.
pub open spec fn entry_hash_of(wallet: Seq<char>, email: Seq<char>, micros: int) -> Seq<char> {
    hex_text(fnv1a(entry_message(wallet, email, micros)))
}

proof fn lemma_fnv_concat(h: u64, a: Seq<u8>, b: Seq<u8>)
    ensures
        fnv_from(h, a + b) == fnv_from(fnv_from(h, a), b),
    decreases b.len(),
{
    if b.len() == 0 {
        assert(a + b =~= a);
    } else {
        assert((a + b).drop_last() =~= a + b.drop_last());
        lemma_fnv_concat(h, a, b.drop_last());
    }
}

/// Continues FNV-1a from `h` over `bytes`.
fn fnv_extend(h: u64, bytes: &[u8]) -> (r: u64)
    ensures
        r == fnv_from(h, bytes@),
{
    let mut acc = h;
    let mut i: usize = 0;
    while i < bytes.len()
        invariant
            i <= bytes@.len(),
            acc == fnv_from(h, bytes@.subrange(0, i as int)),
        decreases bytes@.len() - i,
    {
        proof {
            assert(bytes@.subrange(0, i + 1).drop_last() =~= bytes@.subrange(0, i as int));
        }
        acc = (acc ^ (bytes[i] as u64)).wrapping_mul(FNV_PRIME);
        i = i + 1;
    }
    proof {
        assert(bytes@.subrange(0, bytes@.len() as int) =~= bytes@);
    }
    acc
}

/// Appends the decimal digits of `n`.
fn push_decimal(n: u64, out: &mut Vec<u8>)
    ensures
        final(out)@ == old(out)@ + decimal_digits(n as nat),
    decreases n,
{
    if n >= 10 {
        push_decimal(n / 10, out);
    }
    out.push((48 + n % 10) as u8);
    proof {
        if n >= 10 {
            assert(old(out)@ + decimal_digits(n as nat) =~= old(out)@ + decimal_digits(
                (n / 10) as nat,
            ) + seq![(48 + n % 10) as u8]);
        } else {
            assert(old(out)@ + decimal_digits(n as nat) =~= old(out)@.push((48 + n % 10) as u8));
        }
    }
}

/// The decimal text of `v`.
pub fn decimal_bytes(v: i64) -> (r: Vec<u8>)
    ensures
        r@ == decimal_text(v as int),
{
    let mut out: Vec<u8> = Vec::new();
    if v < 0 {
        out.push(45);
        let magnitude: u64 = (0 - (v as i128)) as u64;
        push_decimal(magnitude, &mut out);
        proof {
            assert(out@ =~= seq![45u8] + decimal_digits((-v) as nat));
        }
    } else {
        push_decimal(v as u64, &mut out);
        proof {
            assert(out@ =~= decimal_digits(v as nat));
        }
    }
    out
}

/// The lowercase hex digit of `d`.
fn hex_digit(d: u64) -> (c: char)
    requires
        d < 16,
    ensures
        c == hex_digit_of(d),
{
    if d < 10 {
        let digits = ['0', '1', '2', '3', '4', '5', '6', '7', '8', '9'];
        proof {
            assert(digits@ =~= seq!['0', '1', '2', '3', '4', '5', '6', '7', '8', '9']);
        }
        digits[d as usize]
    } else {
        let digits = ['a', 'b', 'c', 'd', 'e', 'f'];
        proof {
            assert(digits@ =~= seq!['a', 'b', 'c', 'd', 'e', 'f']);
        }
        digits[(d - 10) as usize]
    }
}

/// `h` as 16 lowercase hex digits.
pub fn hex16(h: u64) -> (r: String)
    ensures
        r@ == hex_text(h),
{
    let mut out = String::new();
    let mut i: u64 = 0;
    while i < 16
        invariant
            i <= 16,
            out@ == hex_text(h).subrange(0, i as int),
        decreases 16 - i,
    {
        let shift: u64 = 60 - 4 * i;
        let d = (h >> shift) & 15;
        assert(d < 16) by (bit_vector)
            requires
                d == (h >> shift) & 15,
        ;
        push_char(&mut out, hex_digit(d));
        proof {
            assert(out@ =~= hex_text(h).subrange(0, i + 1));
        }
        i = i + 1;
    }
    proof {
        assert(out@ =~= hex_text(h));
    }
    out
}

/// The fingerprint of a raffle entry made by `wallet` with `email` at
/// `micros`.
pub fn generate_entry_hash(wallet: &str, email: &str, micros: i64) -> (r: String)
    ensures
        r@ == entry_hash_of(wallet@, email@, micros as int),
{
    let sep: [u8; 1] = [124];
    let digits = decimal_bytes(micros);
    proof {
        assert(sep@ =~= seq![124u8]);
    }
    let h0 = fnv_extend(FNV_OFFSET_BASIS, wallet.as_bytes());
    let h1 = fnv_extend(h0, sep.as_slice());
    let h2 = fnv_extend(h1, email.as_bytes());
    let h3 = fnv_extend(h2, sep.as_slice());
    let h4 = fnv_extend(h3, digits.as_slice());
    proof {
        let w = encode_utf8(wallet@);
        let e = encode_utf8(email@);
        let s = seq![124u8];
        lemma_fnv_concat(FNV_OFFSET_BASIS, w, s);
        lemma_fnv_concat(FNV_OFFSET_BASIS, w + s, e);
        lemma_fnv_concat(FNV_OFFSET_BASIS, w + s + e, s);
        lemma_fnv_concat(FNV_OFFSET_BASIS, w + s + e + s, decimal_text(micros as int));
    }
    hex16(h4)
}

/// The fingerprint depends on the wallet, the e-mail address and the time
/// alone, and is always 16 lowercase hex digits.
pub proof fn entry_hash_deterministic(
    w1: Seq<char>,
    e1: Seq<char>,
    t1: int,
    w2: Seq<char>,
    e2: Seq<char>,
    t2: int,
)
    requires
        w1 == w2,
        e1 == e2,
        t1 == t2,
    ensures
        entry_hash_of(w1, e1, t1) == entry_hash_of(w2, e2, t2),
        entry_hash_of(w1, e1, t1).len() == 16,
        forall|i: int|
            0 <= i < 16 ==> {
                let c = #[trigger] entry_hash_of(w1, e1, t1)[i];
                ('0' <= c && c <= '9') || ('a' <= c && c <= 'f')
            },
{
    let h = fnv1a(entry_message(w1, e1, t1));
    assert forall|i: int| 0 <= i < 16 implies {
        let c = #[trigger] entry_hash_of(w1, e1, t1)[i];
        ('0' <= c && c <= '9') || ('a' <= c && c <= 'f')
    } by {
        let shift = (60 - 4 * i) as u64;
        let d = (h >> shift) & 15u64;
        assert(d < 16) by (bit_vector)
            requires
                d == (h >> shift) & 15u64,
        ;
    }
}

} // verus!
