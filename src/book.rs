use crate::castling::{correct_castling, corrected_move, CastlingRights};
use crate::square::{BookMove, Promotion, Square};
use vstd::prelude::*;
use vstd::set_lib::{lemma_int_range, set_int_range};

verus! {

/// Size in bytes of one record of the opening table.
pub const RECORD_LEN: usize = 16;

/// One candidate move of the opening table for a position key.
#[derive(Clone, Copy, Debug, PartialEq, Eq, Structural)]
pub struct BookEntry {
    pub key: u64,
    pub mv: BookMove,
    pub weight: u16,
}

/// Why the bytes of an opening table were refused.
#[derive(Clone, Copy, Debug, PartialEq, Eq, Structural)]
pub enum BookError {
    /// The length is not a whole number of records.
    TruncatedRecord,
    /// The record at this index names no known promotion piece.
    BadPromotion(usize),
}

// ---- byte layout -------------------------------------------------------

/// Big-endian value of a byte sequence.
pub open spec fn be_value(s: Seq<u8>) -> nat
    decreases s.len(),
{
    if s.len() == 0 {
        0
    } else {
        be_value(s.drop_last()) * 256 + s.last() as nat
    }
}

pub open spec fn pow256(n: nat) -> nat
    decreases n,
{
    if n == 0 {
        1
    } else {
        256 * pow256((n - 1) as nat)
    }
}

pub proof fn lemma_be_value_bound(s: Seq<u8>)
    ensures
        be_value(s) < pow256(s.len()),
    decreases s.len(),
{
    if s.len() > 0 {
        lemma_be_value_bound(s.drop_last());
        let p = pow256((s.len() - 1) as nat);
        let v = be_value(s.drop_last());
        assert(v * 256 + 255 < p * 256) by (nonlinear_arith)
            requires
                v < p,
        ;
    }
}

/// The promotion code of a packed move: 0 for none, 1 to 4 for knight,
/// bishop, rook and queen.
pub open spec fn promotion_of_code(c: int) -> Option<Option<Promotion>> {
    if c == 0 {
        Some(None)
    } else if c == 1 {
        Some(Some(Promotion::Knight))
    } else if c == 2 {
        Some(Some(Promotion::Bishop))
    } else if c == 3 {
        Some(Some(Promotion::Rook))
    } else if c == 4 {
        Some(Some(Promotion::Queen))
    } else {
        None
    }
}

/// A packed move: destination file in bits 0-2, destination rank in bits
/// 3-5, source file in bits 6-8, source rank in bits 9-11, promotion code
/// in bits 12-14.
#[verifier::opaque]
pub open spec fn unpack_move(raw: int) -> Option<BookMove> {
    match promotion_of_code((raw / 4096) % 8) {
        None => None,
        Some(p) => Some(
            BookMove {
                source: Square { file: ((raw / 64) % 8) as u8, rank: ((raw / 512) % 8) as u8 },
                dest: Square { file: (raw % 8) as u8, rank: ((raw / 8) % 8) as u8 },
                promotion: p,
            },
        ),
    }
}

/// The record at index `i`: key (8 bytes), move (2), weight (2), and four
/// bytes that selection does not read; all big-endian.
pub open spec fn record_at(bytes: Seq<u8>, i: int) -> Option<BookEntry> {
    record_of(bytes.subrange(16 * i, 16 * i + 16))
}

/// A record of 16 bytes as a book entry.
pub open spec fn record_of(b: Seq<u8>) -> Option<BookEntry> {
    match unpack_move(be_value(b.subrange(8, 10)) as int) {
        None => None,
        Some(mv) => Some(
            BookEntry {
                key: be_value(b.subrange(0, 8)) as u64,
                mv,
                weight: be_value(b.subrange(10, 12)) as u16,
            },
        ),
    }
}

fn read_be(bytes: &[u8], start: usize, n: usize) -> (r: u64)
    requires
        n <= 8,
        start + n <= bytes@.len(),
    ensures
        r == be_value(bytes@.subrange(start as int, start + n)),
{
    let len = bytes.len();
    let mut acc: u64 = 0;
    let mut k: usize = 0;
    while k < n
        invariant
            k <= n <= 8,
            start + n <= bytes@.len(),
            len == bytes@.len(),
            acc == be_value(bytes@.subrange(start as int, start + k)),
        decreases n - k,
    {
        proof {
            let s = bytes@.subrange(start as int, start + k);
            lemma_be_value_bound(s);
            reveal_with_fuel(pow256, 8);
            assert(pow256(7) == 0x100000000000000);
            lemma_pow256_mono(k as nat, 7);
            assert(bytes@.subrange(start as int, start + k + 1).drop_last() =~= s);
        }
        let b = bytes[start + k] as u64;
        assert(acc * 256 + b < 0x10000000000000000) by (nonlinear_arith)
            requires
                acc < 0x100000000000000,
                b < 256,
        ;
        acc = acc * 256 + b;
        k = k + 1;
    }
    acc
}

proof fn lemma_pow256_mono(a: nat, b: nat)
    requires
        a <= b,
    ensures
        pow256(a) <= pow256(b),
    decreases b,
{
    if a < b {
        lemma_pow256_mono(a, (b - 1) as nat);
    }
}

fn unpack_promotion(c: u16) -> (r: Option<Option<Promotion>>)
    ensures
        r == promotion_of_code(c as int),
{
    if c == 0 {
        Some(None)
    } else if c == 1 {
        Some(Some(Promotion::Knight))
    } else if c == 2 {
        Some(Some(Promotion::Bishop))
    } else if c == 3 {
        Some(Some(Promotion::Rook))
    } else if c == 4 {
        Some(Some(Promotion::Queen))
    } else {
        None
    }
}

/// Decodes a packed move; `None` where the promotion code is unknown.
pub fn decode_move(raw: u16) -> (r: Option<BookMove>)
    ensures
        r == unpack_move(raw as int),
        r matches Some(m) ==> m.wf(),
{
    reveal(unpack_move);
    match unpack_promotion((raw / 4096) % 8) {
        None => None,
        Some(p) => Some(
            BookMove {
                source: Square { file: ((raw / 64) % 8) as u8, rank: ((raw / 512) % 8) as u8 },
                dest: Square { file: (raw % 8) as u8, rank: ((raw / 8) % 8) as u8 },
                promotion: p,
            },
        ),
    }
}

fn read_record(bytes: &[u8], base: usize) -> (r: Option<BookEntry>)
    requires
        base + 16 <= bytes@.len(),
    ensures
        r == record_of(bytes@.subrange(base as int, base + 16)),
{
    let _len = bytes.len();
    let key = read_be(bytes, base, 8);
    let raw = read_be(bytes, base + 8, 2);
    let weight = read_be(bytes, base + 10, 2);
    proof {
        let b = bytes@.subrange(base as int, base + 16);
        assert(b.subrange(0, 8) =~= bytes@.subrange(base as int, base + 8));
        assert(b.subrange(8, 10) =~= bytes@.subrange(base + 8, base + 10));
        assert(b.subrange(10, 12) =~= bytes@.subrange(base + 10, base + 12));
        lemma_be_value_bound(b.subrange(8, 10));
        lemma_be_value_bound(b.subrange(10, 12));
        reveal_with_fuel(pow256, 3);
    }
    match decode_move(raw as u16) {
        None => None,
        Some(mv) => Some(BookEntry { key, mv, weight: weight as u16 }),
    }
}

/// Reads an opening table: a sequence of 16-byte records, kept in order.
pub fn parse_book(bytes: &[u8]) -> (r: Result<Vec<BookEntry>, BookError>)
    ensures
        bytes@.len() % 16 != 0 ==> r == Err::<Vec<BookEntry>, BookError>(BookError::TruncatedRecord),
        bytes@.len() % 16 == 0 ==> match r {
            Ok(v) => v@.len() == bytes@.len() / 16 && forall|i: int|
                0 <= i < v@.len() ==> record_at(bytes@, i) == Some(#[trigger] v@[i]),
            Err(BookError::BadPromotion(i)) => i < bytes@.len() / 16 && record_at(
                bytes@,
                i as int,
            ) is None && forall|j: int| 0 <= j < i ==> #[trigger] record_at(bytes@, j) is Some,
            Err(BookError::TruncatedRecord) => false,
        },
{
    if bytes.len() % RECORD_LEN != 0 {
        return Err(BookError::TruncatedRecord);
    }
    let n = bytes.len() / RECORD_LEN;
    assert(16 * n == bytes@.len());
    let mut out: Vec<BookEntry> = Vec::new();
    let mut i: usize = 0;
    let mut base: usize = 0;
    while i < n
        invariant
            16 * n == bytes@.len(),
            bytes@.len() <= usize::MAX,
            i <= n,
            base == 16 * i,
            out@.len() == i,
            forall|j: int| 0 <= j < i ==> #[trigger] record_at(bytes@, j) == Some(out@[j]),
        decreases n - i,
    {
        match read_record(bytes, base) {
            None => {
                return Err(BookError::BadPromotion(i));
            },
            Some(e) => {
                out.push(e);
            },
        }
        i = i + 1;
        base = base + RECORD_LEN;
    }
    assert(n == bytes@.len() / 16);
    Ok(out)
}

// ---- lookup and weighted choice ----------------------------------------

/// The entries stored under `key`, in stored order.
pub open spec fn entries_for(s: Seq<BookEntry>, key: u64) -> Seq<BookEntry>
    decreases s.len(),
{
    if s.len() == 0 {
        Seq::empty()
    } else if s.last().key == key {
        entries_for(s.drop_last(), key).push(s.last())
    } else {
        entries_for(s.drop_last(), key)
    }
}

/// Sum of the weights.
pub open spec fn total_of(s: Seq<BookEntry>) -> int
    decreases s.len(),
{
    if s.len() == 0 {
        0
    } else {
        total_of(s.drop_last()) + s.last().weight
    }
}

/// Sum of the weights before index `i`.
pub open spec fn prefix_of(s: Seq<BookEntry>, i: int) -> int {
    total_of(s.subrange(0, i))
}

/// Ticket `t` falls on entry `i`: the roulette slot of `i` spans
/// `[prefix_of(s, i), prefix_of(s, i + 1))`.
pub open spec fn selects(s: Seq<BookEntry>, t: int, i: int) -> bool {
    0 <= i < s.len() && prefix_of(s, i) <= t < prefix_of(s, i + 1)
}

/// The ticket drawn by the random fraction `unit / 2^32` out of `total`.
pub open spec fn ticket_of(unit: u32, total: int) -> int {
    (unit * total) / 0x1_0000_0000
}

/// What a book consultation yields: the entry that the ticket falls on,
/// with its move's castling notation corrected.
pub open spec fn chosen_as(r: BookEntry, s: Seq<BookEntry>, i: int, rights: CastlingRights) -> bool {
    r == (BookEntry { mv: corrected_move(s[i].mv, rights), ..s[i] })
}

proof fn lemma_prefix_step(s: Seq<BookEntry>, i: int)
    requires
        0 <= i < s.len(),
    ensures
        prefix_of(s, i + 1) == prefix_of(s, i) + s[i].weight,
{
    assert(s.subrange(0, i + 1).drop_last() =~= s.subrange(0, i));
}

proof fn lemma_prefix_total(s: Seq<BookEntry>)
    ensures
        prefix_of(s, s.len() as int) == total_of(s),
{
    assert(s.subrange(0, s.len() as int) =~= s);
}

proof fn lemma_prefix_mono(s: Seq<BookEntry>, i: int, j: int)
    requires
        0 <= i <= j <= s.len(),
    ensures
        0 <= prefix_of(s, i) <= prefix_of(s, j),
    decreases j - i,
{
    if i < j {
        lemma_prefix_mono(s, i, j - 1);
        lemma_prefix_step(s, j - 1);
    } else {
        lemma_prefix_nonneg(s, i);
    }
}

proof fn lemma_prefix_nonneg(s: Seq<BookEntry>, i: int)
    requires
        0 <= i <= s.len(),
    ensures
        prefix_of(s, i) >= 0,
    decreases i,
{
    if i > 0 {
        lemma_prefix_nonneg(s, i - 1);
        lemma_prefix_step(s, i - 1);
    }
}

/// A ticket falls on at most one entry.
pub proof fn lemma_selection_unique(s: Seq<BookEntry>, t: int, i: int, j: int)
    requires
        selects(s, t, i),
        selects(s, t, j),
    ensures
        i == j,
{
    if i < j {
        lemma_prefix_mono(s, i + 1, j);
    } else if j < i {
        lemma_prefix_mono(s, j + 1, i);
    }
}

/// Sweeping every ticket below the total, entry `i` is chosen for exactly
/// as many tickets as its weight: the choice is proportional to weight.
pub proof fn lemma_selection_frequency(s: Seq<BookEntry>, i: int)
    requires
        0 <= i < s.len(),
    ensures
        Set::new(|t: int| 0 <= t < total_of(s) && selects(s, t, i)).finite(),
        Set::new(|t: int| 0 <= t < total_of(s) && selects(s, t, i)).len() == s[i].weight,
{
    lemma_prefix_mono(s, i, i + 1);
    lemma_prefix_mono(s, i + 1, s.len() as int);
    lemma_prefix_total(s);
    lemma_prefix_step(s, i);
    let lo = prefix_of(s, i);
    let hi = prefix_of(s, i + 1);
    assert(Set::new(|t: int| 0 <= t < total_of(s) && selects(s, t, i)) =~= set_int_range(lo, hi));
    lemma_int_range(lo, hi);
}

proof fn lemma_floor_at_least(u: int, a: int, t: int, m: int)
    requires
        0 <= u,
        0 <= a,
        t > 0,
        m > 0,
    ensures
        (u * t) / m >= a <==> u >= (a * m + t - 1) / t,
{
    assert((u * t) / m >= a <==> u * t >= a * m) by (nonlinear_arith)
        requires
            0 <= u,
            t > 0,
            m > 0,
    ;
    assert(u * t >= a * m <==> u >= (a * m + t - 1) / t) by (nonlinear_arith)
        requires
            0 <= u,
            0 <= a,
            t > 0,
            m > 0,
    ;
}

proof fn lemma_ceil_bounds(a: int, t: int, m: int)
    requires
        0 <= a <= t,
        t > 0,
        m > 0,
    ensures
        0 <= (a * m + t - 1) / t <= m,
        a * m <= t * ((a * m + t - 1) / t) < a * m + t,
{
    assert(0 <= (a * m + t - 1) / t <= m) by (nonlinear_arith)
        requires
            0 <= a <= t,
            t > 0,
            m > 0,
    ;
    assert(a * m <= t * ((a * m + t - 1) / t) < a * m + t) by (nonlinear_arith)
        requires
            0 <= a,
            t > 0,
            m > 0,
    ;
}

/// Sweeping every random fraction `u / 2^32`, entry `i` is chosen for a
/// number of fractions within one of `2^32 * weight / total`: the choice
/// follows the weights up to the rounding of a single fraction.
pub proof fn lemma_fraction_sweep_frequency(s: Seq<BookEntry>, i: int)
    requires
        0 <= i < s.len(),
        total_of(s) > 0,
    ensures
        Set::new(
            |u: int| 0 <= u < 0x1_0000_0000 && selects(s, (u * total_of(s)) / 0x1_0000_0000, i),
        ).finite(),
        Set::new(
            |u: int| 0 <= u < 0x1_0000_0000 && selects(s, (u * total_of(s)) / 0x1_0000_0000, i),
        ).len() * total_of(s) > 0x1_0000_0000 * s[i].weight - total_of(s),
        Set::new(
            |u: int| 0 <= u < 0x1_0000_0000 && selects(s, (u * total_of(s)) / 0x1_0000_0000, i),
        ).len() * total_of(s) < 0x1_0000_0000 * s[i].weight + total_of(s),
{
    let m: int = 0x1_0000_0000;
    let t = total_of(s);
    lemma_prefix_mono(s, i, i + 1);
    lemma_prefix_mono(s, i + 1, s.len() as int);
    lemma_prefix_total(s);
    lemma_prefix_step(s, i);
    let a = prefix_of(s, i);
    let b = prefix_of(s, i + 1);
    let lo = (a * m + t - 1) / t;
    let hi = (b * m + t - 1) / t;
    lemma_ceil_bounds(a, t, m);
    lemma_ceil_bounds(b, t, m);
    let set = Set::new(|u: int| 0 <= u < m && selects(s, (u * t) / m, i));
    assert forall|u: int| #[trigger] set.contains(u) <==> set_int_range(lo, hi).contains(u) by {
        if 0 <= u {
            lemma_floor_at_least(u, a, t, m);
            lemma_floor_at_least(u, b, t, m);
        }
    }
    assert(set =~= set_int_range(lo, hi));
    assert(lo <= hi) by (nonlinear_arith)
        requires
            lo == (a * m + t - 1) / t,
            hi == (b * m + t - 1) / t,
            0 <= a <= b,
            t > 0,
            m > 0,
    ;
    lemma_int_range(lo, hi);
    assert((hi - lo) * t == t * hi - t * lo) by (nonlinear_arith);
}

/// The entries of the table stored under `key`, in stored order.
pub fn lookup(book: &Vec<BookEntry>, key: u64) -> (r: Vec<BookEntry>)
    ensures
        r@ == entries_for(book@, key),
{
    let mut out: Vec<BookEntry> = Vec::new();
    let mut i: usize = 0;
    while i < book.len()
        invariant
            i <= book@.len(),
            out@ == entries_for(book@.subrange(0, i as int), key),
        decreases book@.len() - i,
    {
        assert(book@.subrange(0, i + 1).drop_last() =~= book@.subrange(0, i as int));
        if book[i].key == key {
            out.push(book[i]);
        }
        i = i + 1;
    }
    assert(book@.subrange(0, book@.len() as int) =~= book@);
    out
}

/// Sum of the entries' weights.
pub fn total_weight(entries: &Vec<BookEntry>) -> (r: u128)
    ensures
        r == total_of(entries@),
        r <= 0xffff * entries@.len(),
{
    let mut acc: u128 = 0;
    let mut i: usize = 0;
    while i < entries.len()
        invariant
            i <= entries@.len(),
            acc == prefix_of(entries@, i as int),
            acc <= 0xffff * i,
        decreases entries@.len() - i,
    {
        proof {
            lemma_prefix_step(entries@, i as int);
        }
        acc = acc + entries[i].weight as u128;
        i = i + 1;
    }
    proof {
        lemma_prefix_total(entries@);
    }
    acc
}

/// The ticket that the random fraction `unit / 2^32` draws out of `total`:
/// `floor(unit * total / 2^32)`, below `total` whenever `total` is positive.
pub fn ticket_for(unit: u32, total: u128) -> (r: u128)
    requires
        total < 0x1_0000_0000_0000_0000_0000_0000,
    ensures
        r == ticket_of(unit, total as int),
        total > 0 ==> r < total,
{
    assert(unit * total < 0x1_0000_0000 * 0x1_0000_0000_0000_0000_0000_0000) by (nonlinear_arith)
        requires
            unit < 0x1_0000_0000,
            total < 0x1_0000_0000_0000_0000_0000_0000,
    ;
    let p = unit as u128 * total;
    let r = p / 0x1_0000_0000;
    assert(total > 0 ==> r < total) by (nonlinear_arith)
        requires
            p == unit * total,
            r == p / 0x1_0000_0000,
            unit < 0x1_0000_0000,
    ;
    r
}

/// The index of the entry that `ticket` falls on, walking the entries in
/// stored order; `None` when the ticket is not below the total weight.
pub fn select_index(entries: &Vec<BookEntry>, ticket: u128) -> (r: Option<usize>)
    ensures
        match r {
            Some(i) => selects(entries@, ticket as int, i as int),
            None => ticket >= total_of(entries@),
        },
{
    let mut rest: u128 = ticket;
    let mut i: usize = 0;
    while i < entries.len()
        invariant
            i <= entries@.len(),
            rest + prefix_of(entries@, i as int) == ticket,
        decreases entries@.len() - i,
    {
        proof {
            lemma_prefix_step(entries@, i as int);
        }
        let w = entries[i].weight as u128;
        if rest < w {
            return Some(i);
        }
        rest = rest - w;
        i = i + 1;
    }
    proof {
        lemma_prefix_total(entries@);
    }
    None
}

/// Consults the table for the position `key`: picks among its entries by
/// weight with the random fraction `unit / 2^32` and corrects castling
/// notation under `rights`. `None` exactly when the entries' weights sum to
/// zero, which includes a position with no entries.
pub fn choose_book_move(book: &Vec<BookEntry>, key: u64, rights: CastlingRights, unit: u32) -> (r:
    Option<BookEntry>)
    ensures
        r is None <==> total_of(entries_for(book@, key)) == 0,
        r matches Some(e) ==> exists|i: int|
            selects(entries_for(book@, key), ticket_of(unit, total_of(entries_for(book@, key))), i)
                && chosen_as(e, entries_for(book@, key), i, rights),
{
    let entries = lookup(book, key);
    let _n = entries.len();
    let total = total_weight(&entries);
    if total == 0 {
        return None;
    }
    assert(entries@.len() <= usize::MAX);
    assert(total < 0x1_0000_0000_0000_0000_0000_0000);
    let ticket = ticket_for(unit, total);
    match select_index(&entries, ticket) {
        None => None,
        Some(i) => {
            let e = entries[i];
            let mv = correct_castling(e.mv, rights);
            let r = BookEntry { mv, ..e };
            assert(chosen_as(r, entries@, i as int, rights));
            Some(r)
        },
    }
}

/// Entries that all weigh zero sum to zero, so the table offers no move.
pub proof fn lemma_zero_weights_no_move(s: Seq<BookEntry>)
    requires
        forall|i: int| 0 <= i < s.len() ==> (#[trigger] s[i]).weight == 0,
    ensures
        total_of(s) == 0,
    decreases s.len(),
{
    if s.len() > 0 {
        assert(s[s.len() - 1].weight == 0);
        let t = s.drop_last();
        assert forall|i: int| 0 <= i < t.len() implies (#[trigger] t[i]).weight == 0 by {
            assert(t[i] == s[i]);
        }
        lemma_zero_weights_no_move(t);
    }
}

} // verus!
