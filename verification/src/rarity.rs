use vstd::arithmetic::div_mod::lemma_fundamental_div_mod;
use vstd::arithmetic::div_mod::lemma_mod_bound;
use vstd::arithmetic::div_mod::lemma_fundamental_div_mod_converse;
use vstd::prelude::*;

verus! {

/// Number of blocks between difficulty adjustments.
pub const DIFFCHANGE_INTERVAL: u64 = 2016;

/// Number of blocks between subsidy halvings.
pub const SUBSIDY_HALVING_INTERVAL: u64 = 210_000;

/// Number of blocks in one cycle: the period after which a halving and a
/// difficulty adjustment fall on the same block again (the least common
/// multiple of the two intervals, six halving epochs).
pub const CYCLE_INTERVAL: u64 = 6 * SUBSIDY_HALVING_INTERVAL;

/// Block subsidy of the first halving epoch, in satoshis.
pub const INITIAL_SUBSIDY: u64 = 5_000_000_000;

/// Total number of satoshis that will ever be mined.
pub const SUPPLY: u64 = 2_099_999_997_690_000;

/// The last satoshi that will ever be mined.
pub const MAX_SAT: u64 = SUPPLY - 1;

/// One satoshi, identified by its absolute mining order.
#[derive(Debug, Clone, Copy, PartialEq, Eq, Structural)]
pub struct Sat(pub u64);

/// Rarity tier of a satoshi, from most ordinary to rarest.
#[derive(Debug, Clone, Copy, PartialEq, Eq, PartialOrd, Ord, Structural)]
pub enum Rarity {
    Common,
    Uncommon,
    Rare,
    Epic,
    Legendary,
    Mythic,
}

/// A half-open interval `[first, last)` of satoshis, as produced by the
/// UTXO layer for one output.
#[derive(Debug, Clone, Copy, PartialEq, Eq, Structural)]
pub struct SatRange {
    pub first: u64,
    pub last: u64,
}

impl SatRange {
    /// A caller-supplied range must be non-empty and lie within the supply.
    pub open spec fn wf(self) -> bool {
        self.first < self.last <= SUPPLY
    }
}

/// One non-Common satoshi inside a queried range, reported with its offset
/// from the range start.
#[derive(Debug, Clone, Copy, PartialEq, Eq, Structural)]
pub struct RaritySat {
    pub sat: Sat,
    pub offset: u64,
    pub rarity: Rarity,
}

/// Block subsidy, in satoshis, of halving epoch `e`: halved (rounding down)
/// at every halving until it reaches zero.
pub open spec fn epoch_subsidy(e: int) -> int
    decreases e,
{
    if e <= 0 {
        INITIAL_SUBSIDY as int
    } else {
        epoch_subsidy(e - 1) / 2
    }
}

/// First satoshi mined in halving epoch `e`.
pub open spec fn epoch_starting_sat(e: int) -> int
    decreases e,
{
    if e <= 0 {
        0
    } else {
        epoch_starting_sat(e - 1) + (SUBSIDY_HALVING_INTERVAL as int) * epoch_subsidy(e - 1)
    }
}

/// The halving epoch that contains `sat`, searched upward from epoch `e`.
/// Epoch 32 is the last epoch in which satoshis are mined.
pub open spec fn epoch_from(e: int, sat: int) -> int
    decreases 32 - e,
{
    if e >= 32 {
        32
    } else if sat < epoch_starting_sat(e + 1) {
        e
    } else {
        epoch_from(e + 1, sat)
    }
}

/// Halving epoch in which satoshi `sat` was mined.
pub open spec fn sat_epoch(sat: int) -> int {
    epoch_from(0, sat)
}

/// Height of the block in which satoshi `sat` was mined.
pub open spec fn sat_height(sat: int) -> int {
    let e = sat_epoch(sat);
    e * (SUBSIDY_HALVING_INTERVAL as int) + (sat - epoch_starting_sat(e)) / epoch_subsidy(e)
}

/// Position of satoshi `sat` within its block; 0 means it is the first
/// satoshi of the block.
pub open spec fn sat_third(sat: int) -> int {
    let e = sat_epoch(sat);
    (sat - epoch_starting_sat(e)) % epoch_subsidy(e)
}

/// The rarity tier of satoshi `sat`: Mythic for the first satoshi ever
/// mined, and otherwise determined by whether the satoshi opens its block
/// and whether that block opens a cycle, a halving epoch or a difficulty
/// adjustment period.
pub open spec fn spec_rarity(sat: int) -> Rarity {
    if sat == 0 {
        Rarity::Mythic
    } else if sat_third(sat) != 0 {
        Rarity::Common
    } else if sat_height(sat) % (CYCLE_INTERVAL as int) == 0 {
        Rarity::Legendary
    } else if sat_height(sat) % (SUBSIDY_HALVING_INTERVAL as int) == 0 {
        Rarity::Epic
    } else if sat_height(sat) % (DIFFCHANGE_INTERVAL as int) == 0 {
        Rarity::Rare
    } else {
        Rarity::Uncommon
    }
}

/// The subsidy never becomes negative.
pub proof fn lemma_subsidy_nonneg(e: int)
    ensures
        epoch_subsidy(e) >= 0,
    decreases e,
{
    if e > 0 {
        lemma_subsidy_nonneg(e - 1);
    }
}

/// The subsidy shrinks (weakly) from one epoch to the next.
pub proof fn lemma_subsidy_monotone(e1: int, e2: int)
    requires
        e1 <= e2,
    ensures
        epoch_subsidy(e2) <= epoch_subsidy(e1),
    decreases e2 - e1,
{
    if e1 < e2 {
        lemma_subsidy_monotone(e1, e2 - 1);
        lemma_subsidy_nonneg(e2 - 1);
    }
}

/// Epoch starting satoshis never decrease.
pub proof fn lemma_starting_sat_monotone(e1: int, e2: int)
    requires
        e1 <= e2,
    ensures
        epoch_starting_sat(e1) <= epoch_starting_sat(e2),
    decreases e2 - e1,
{
    if e1 < e2 {
        lemma_starting_sat_monotone(e1, e2 - 1);
        lemma_subsidy_nonneg(e2 - 1);
    }
}

/// In the last mining epoch each block still carries one satoshi, and the
/// total of all epochs is the supply.
pub proof fn lemma_epoch_constants()
    ensures
        epoch_subsidy(32) == 1,
        epoch_subsidy(33) == 0,
        epoch_starting_sat(33) == SUPPLY,
        epoch_starting_sat(32) + (SUBSIDY_HALVING_INTERVAL as int) == SUPPLY,
{
    reveal_with_fuel(epoch_subsidy, 2);
    reveal_with_fuel(epoch_starting_sat, 2);
    assert(epoch_subsidy(0) == 5000000000);
    assert(epoch_starting_sat(0) == 0);
    assert(epoch_subsidy(1) == 2500000000);
    assert(epoch_starting_sat(1) == 1050000000000000);
    assert(epoch_subsidy(2) == 1250000000);
    assert(epoch_starting_sat(2) == 1575000000000000);
    assert(epoch_subsidy(3) == 625000000);
    assert(epoch_starting_sat(3) == 1837500000000000);
    assert(epoch_subsidy(4) == 312500000);
    assert(epoch_starting_sat(4) == 1968750000000000);
    assert(epoch_subsidy(5) == 156250000);
    assert(epoch_starting_sat(5) == 2034375000000000);
    assert(epoch_subsidy(6) == 78125000);
    assert(epoch_starting_sat(6) == 2067187500000000);
    assert(epoch_subsidy(7) == 39062500);
    assert(epoch_starting_sat(7) == 2083593750000000);
    assert(epoch_subsidy(8) == 19531250);
    assert(epoch_starting_sat(8) == 2091796875000000);
    assert(epoch_subsidy(9) == 9765625);
    assert(epoch_starting_sat(9) == 2095898437500000);
    assert(epoch_subsidy(10) == 4882812);
    assert(epoch_starting_sat(10) == 2097949218750000);
    assert(epoch_subsidy(11) == 2441406);
    assert(epoch_starting_sat(11) == 2098974609270000);
    assert(epoch_subsidy(12) == 1220703);
    assert(epoch_starting_sat(12) == 2099487304530000);
    assert(epoch_subsidy(13) == 610351);
    assert(epoch_starting_sat(13) == 2099743652160000);
    assert(epoch_subsidy(14) == 305175);
    assert(epoch_starting_sat(14) == 2099871825870000);
    assert(epoch_subsidy(15) == 152587);
    assert(epoch_starting_sat(15) == 2099935912620000);
    assert(epoch_subsidy(16) == 76293);
    assert(epoch_starting_sat(16) == 2099967955890000);
    assert(epoch_subsidy(17) == 38146);
    assert(epoch_starting_sat(17) == 2099983977420000);
    assert(epoch_subsidy(18) == 19073);
    assert(epoch_starting_sat(18) == 2099991988080000);
    assert(epoch_subsidy(19) == 9536);
    assert(epoch_starting_sat(19) == 2099995993410000);
    assert(epoch_subsidy(20) == 4768);
    assert(epoch_starting_sat(20) == 2099997995970000);
    assert(epoch_subsidy(21) == 2384);
    assert(epoch_starting_sat(21) == 2099998997250000);
    assert(epoch_subsidy(22) == 1192);
    assert(epoch_starting_sat(22) == 2099999497890000);
    assert(epoch_subsidy(23) == 596);
    assert(epoch_starting_sat(23) == 2099999748210000);
    assert(epoch_subsidy(24) == 298);
    assert(epoch_starting_sat(24) == 2099999873370000);
    assert(epoch_subsidy(25) == 149);
    assert(epoch_starting_sat(25) == 2099999935950000);
    assert(epoch_subsidy(26) == 74);
    assert(epoch_starting_sat(26) == 2099999967240000);
    assert(epoch_subsidy(27) == 37);
    assert(epoch_starting_sat(27) == 2099999982780000);
    assert(epoch_subsidy(28) == 18);
    assert(epoch_starting_sat(28) == 2099999990550000);
    assert(epoch_subsidy(29) == 9);
    assert(epoch_starting_sat(29) == 2099999994330000);
    assert(epoch_subsidy(30) == 4);
    assert(epoch_starting_sat(30) == 2099999996220000);
    assert(epoch_subsidy(31) == 2);
    assert(epoch_starting_sat(31) == 2099999997060000);
    assert(epoch_subsidy(32) == 1);
    assert(epoch_starting_sat(32) == 2099999997480000);
    assert(epoch_subsidy(33) == 0);
    assert(epoch_starting_sat(33) == 2099999997690000);
}

/// The epoch search is correct: if `sat` lies between the starting satoshis
/// of epoch `e` and epoch `e + 1` (or `e` is the final epoch), then `e` is
/// the epoch of `sat`.
pub proof fn lemma_epoch_unique(e: int, sat: int)
    requires
        0 <= e <= 32,
        epoch_starting_sat(e) <= sat,
        e == 32 || sat < epoch_starting_sat(e + 1),
    ensures
        sat_epoch(sat) == e,
{
    lemma_epoch_from_advance(0, e, sat);
}

/// Searching from any epoch at or below the answer finds the same epoch.
proof fn lemma_epoch_from_advance(j: int, e: int, sat: int)
    requires
        0 <= j <= e <= 32,
        epoch_starting_sat(e) <= sat,
        e == 32 || sat < epoch_starting_sat(e + 1),
    ensures
        epoch_from(j, sat) == e,
    decreases e - j,
{
    if j < e {
        lemma_starting_sat_monotone(j + 1, e);
        lemma_epoch_from_advance(j + 1, e, sat);
    }
}

/// Every satoshi below the supply lies inside its epoch's satoshi interval.
pub proof fn lemma_sat_in_epoch(sat: int)
    requires
        0 <= sat < SUPPLY,
    ensures
        0 <= sat_epoch(sat) <= 32,
        epoch_starting_sat(sat_epoch(sat)) <= sat < epoch_starting_sat(sat_epoch(sat) + 1),
        epoch_subsidy(sat_epoch(sat)) >= 1,
{
    lemma_epoch_constants();
    lemma_sat_in_epoch_from(0, sat);
    lemma_subsidy_monotone(sat_epoch(sat), 32);
}

proof fn lemma_sat_in_epoch_from(e: int, sat: int)
    requires
        0 <= e <= 32,
        epoch_starting_sat(e) <= sat < epoch_starting_sat(33),
    ensures
        e <= epoch_from(e, sat) <= 32,
        epoch_starting_sat(epoch_from(e, sat)) <= sat < epoch_starting_sat(epoch_from(e, sat) + 1),
    decreases 32 - e,
{
    if e >= 32 {
    } else if sat < epoch_starting_sat(e + 1) {
    } else {
        lemma_sat_in_epoch_from(e + 1, sat);
    }
}

/// Compute, for satoshi `n`, the height of the block that mined it, its
/// position within that block, and the block subsidy of its epoch.
pub fn sat_decompose(n: u64) -> (r: (u64, u64, u64))
    requires
        n < SUPPLY,
    ensures
        r.0 == sat_height(n as int),
        r.1 == sat_third(n as int),
        r.2 == epoch_subsidy(sat_epoch(n as int)),
        1 <= r.2 <= INITIAL_SUBSIDY,
{
    let mut e: u64 = 0;
    let mut start: u64 = 0;
    let mut sub: u64 = INITIAL_SUBSIDY;
    while e < 32 && n >= start + SUBSIDY_HALVING_INTERVAL * sub
        invariant
            e <= 32,
            n < SUPPLY,
            start == epoch_starting_sat(e as int),
            sub == epoch_subsidy(e as int),
            start <= n,
            sub <= INITIAL_SUBSIDY,
            epoch_from(0, n as int) == epoch_from(e as int, n as int),
        decreases 32 - e,
    {
        start = start + SUBSIDY_HALVING_INTERVAL * sub;
        sub = sub / 2;
        e = e + 1;
    }
    proof {
        lemma_epoch_constants();
        if e < 32 {
            assert(epoch_from(e as int, n as int) == e as int);
        } else {
            assert(epoch_from(e as int, n as int) == 32);
        }
        assert(sat_epoch(n as int) == e as int);
        lemma_sat_in_epoch(n as int);
        lemma_subsidy_monotone(e as int, 32);
    }
    let delta = n - start;
    assert(delta / sub <= delta && delta / sub < SUBSIDY_HALVING_INTERVAL) by (nonlinear_arith)
        requires
            sub >= 1,
            delta < SUBSIDY_HALVING_INTERVAL * sub,
            delta >= 0,
    ;
    let height = e * SUBSIDY_HALVING_INTERVAL + delta / sub;
    let third = delta % sub;
    (height, third, sub)
}

/// Rarity tier of one satoshi. Total over every satoshi that will ever be
/// mined, and pure: the tier depends on the satoshi alone.
pub fn classify(sat: Sat) -> (r: Rarity)
    requires
        sat.0 <= MAX_SAT,
    ensures
        r == spec_rarity(sat.0 as int),
{
    let (height, third, _sub) = sat_decompose(sat.0);
    if sat.0 == 0 {
        Rarity::Mythic
    } else if third != 0 {
        Rarity::Common
    } else if height % CYCLE_INTERVAL == 0 {
        Rarity::Legendary
    } else if height % SUBSIDY_HALVING_INTERVAL == 0 {
        Rarity::Epic
    } else if height % DIFFCHANGE_INTERVAL == 0 {
        Rarity::Rare
    } else {
        Rarity::Uncommon
    }
}

/// The first satoshi of a block is never Common, and a satoshi that does
/// not open its block is always Common.
pub proof fn lemma_rarity_by_third(sat: int)
    requires
        0 <= sat < SUPPLY,
    ensures
        sat_third(sat) == 0 ==> spec_rarity(sat) != Rarity::Common,
        sat_third(sat) != 0 ==> spec_rarity(sat) == Rarity::Common,
{
    if sat == 0 {
        reveal_with_fuel(epoch_starting_sat, 2);
        reveal_with_fuel(epoch_subsidy, 2);
        assert(sat_epoch(0) == 0);
        assert(sat_third(0) == 0);
    }
}

/// Satoshis of one block: stepping `j` satoshis forward from a block's
/// first satoshi stays in the same block (and epoch) while `j` is below the
/// block subsidy, and lands at position `j` within the block.
pub proof fn lemma_block_span(b: int, j: int)
    requires
        0 <= b < SUPPLY,
        sat_third(b) == 0,
        0 <= j < epoch_subsidy(sat_epoch(b)),
        b + j < SUPPLY,
    ensures
        sat_epoch(b + j) == sat_epoch(b),
        sat_height(b + j) == sat_height(b),
        sat_third(b + j) == j,
{
    let e = sat_epoch(b);
    let st = epoch_starting_sat(e);
    let sub = epoch_subsidy(e);
    lemma_sat_in_epoch(b);
    let d = b - st;
    lemma_fundamental_div_mod(d, sub);
    let q = d / sub;
    assert(d == sub * q);
    assert(q >= 0) by (nonlinear_arith)
        requires
            d >= 0,
            sub >= 1,
            d == sub * q,
    ;
    // b + j stays below the next epoch's first satoshi
    assert(q < SUBSIDY_HALVING_INTERVAL as int && sub * q + j < (SUBSIDY_HALVING_INTERVAL as int) * sub) by (nonlinear_arith)
        requires
            sub >= 1,
            0 <= j < sub,
            d == sub * q,
            q >= 0,
            d < (SUBSIDY_HALVING_INTERVAL as int) * sub,
    ;
    assert(epoch_starting_sat(e + 1) == st + (SUBSIDY_HALVING_INTERVAL as int) * sub);
    if e == 32 {
        lemma_epoch_constants();
    }
    lemma_epoch_unique(e, b + j);
    lemma_fundamental_div_mod_converse(b + j - st, sub, q, j);
}

/// The block that contains `sat` starts at `sat - sat_third(sat)`.
pub proof fn lemma_block_start(sat: int)
    requires
        0 <= sat < SUPPLY,
    ensures
        0 <= sat - sat_third(sat) <= sat,
        sat_third(sat - sat_third(sat)) == 0,
        sat_epoch(sat - sat_third(sat)) == sat_epoch(sat),
        epoch_subsidy(sat_epoch(sat - sat_third(sat))) == epoch_subsidy(sat_epoch(sat)),
        sat_third(sat) < epoch_subsidy(sat_epoch(sat)),
{
    let e = sat_epoch(sat);
    let st = epoch_starting_sat(e);
    let sub = epoch_subsidy(e);
    lemma_sat_in_epoch(sat);
    lemma_starting_sat_monotone(0, e);
    let d = sat - st;
    lemma_fundamental_div_mod(d, sub);
    lemma_mod_bound(d, sub);
    let q = d / sub;
    let t = d % sub;
    assert(q >= 0) by (nonlinear_arith)
        requires
            d >= 0,
            sub >= 1,
            d == sub * q + t,
            0 <= t < sub,
    ;
    assert(sub * q >= 0) by (nonlinear_arith)
        requires
            sub >= 1,
            q >= 0,
    ;
    // the block start sits in the same epoch
    lemma_epoch_unique(e, sat - t);
    lemma_fundamental_div_mod_converse(sat - t - st, sub, q, 0);
}

/// Stepping one whole subsidy forward from a block's first satoshi lands on
/// the first satoshi of the next block.
pub proof fn lemma_next_block(b: int)
    requires
        0 <= b < SUPPLY,
        sat_third(b) == 0,
        b + epoch_subsidy(sat_epoch(b)) < SUPPLY,
    ensures
        sat_third(b + epoch_subsidy(sat_epoch(b))) == 0,
{
    let e = sat_epoch(b);
    let st = epoch_starting_sat(e);
    let sub = epoch_subsidy(e);
    lemma_sat_in_epoch(b);
    lemma_epoch_constants();
    let d = b - st;
    lemma_fundamental_div_mod(d, sub);
    let q = d / sub;
    assert(d == sub * q);
    assert(q >= 0 && q < SUBSIDY_HALVING_INTERVAL as int && d + sub <= (SUBSIDY_HALVING_INTERVAL as int) * sub) by (nonlinear_arith)
        requires
            d >= 0,
            sub >= 1,
            d == sub * q,
            d < (SUBSIDY_HALVING_INTERVAL as int) * sub,
    ;
    if b + sub < st + (SUBSIDY_HALVING_INTERVAL as int) * sub {
        // still inside epoch `e`
        lemma_epoch_unique(e, b + sub);
        assert((q + 1) * sub == sub * q + sub) by (nonlinear_arith);
        lemma_fundamental_div_mod_converse(b + sub - st, sub, q + 1, 0);
    } else {
        // the next block opens epoch `e + 1`
        assert(b + sub == epoch_starting_sat(e + 1));
        assert(e < 32);
        lemma_subsidy_monotone(e + 1, 32);
        lemma_epoch_unique(e + 1, b + sub);
        lemma_fundamental_div_mod_converse(0, epoch_subsidy(e + 1), 0, 0);
    }
}

/// Every non-Common satoshi inside the half-open range `[first, last)`,
/// in ascending order, each reported with its offset from the range start.
#[verifier::rlimit(100)]
#[verifier::spinoff_prover]
pub fn segment(range: SatRange) -> (out: Vec<RaritySat>)
    requires
        range.wf(),
    ensures
        forall|i: int|
            0 <= i < out.len() ==> {
                let rs = #[trigger] out[i];
                &&& range.first <= rs.sat.0 < range.last
                &&& rs.sat.0 == range.first + rs.offset
                &&& rs.rarity == spec_rarity(rs.sat.0 as int)
                &&& rs.rarity != Rarity::Common
            },
        forall|i: int, j: int| 0 <= i < j < out.len() ==> out[i].offset < out[j].offset,
        forall|s: int|
            range.first <= s < range.last && spec_rarity(s) != Rarity::Common ==> exists|i: int|
                0 <= i < out.len() && (#[trigger] out[i]).sat.0 == s,
{
    let mut out: Vec<RaritySat> = Vec::new();
    let (_h0, third0, sub0) = sat_decompose(range.first);
    proof {
        lemma_block_start(range.first as int);
    }
    // first satoshi at or after `first` that opens a block
    let next0: u64 = if third0 == 0 {
        range.first
    } else {
        range.first + (sub0 - third0)
    };
    let mut cur: u64 = if next0 < range.last {
        next0
    } else {
        range.last
    };
    proof {
        let b = range.first - third0;
        if third0 != 0 {
            assert forall|s: int| range.first <= s < cur && s < range.last implies spec_rarity(s)
                == Rarity::Common by {
                lemma_block_span(b as int, s - b);
                lemma_rarity_by_third(s);
            }
            if next0 < range.last {
                lemma_block_span(b as int, 0);
                lemma_next_block(b as int);
            }
        }
    }
    while cur < range.last
        invariant
            range.wf(),
            range.first <= cur <= range.last,
            cur < range.last ==> sat_third(cur as int) == 0,
            forall|i: int|
                0 <= i < out.len() ==> {
                    let rs = #[trigger] out[i];
                    &&& range.first <= rs.sat.0 < range.last
                    &&& rs.sat.0 < cur
                    &&& rs.sat.0 == range.first + rs.offset
                    &&& rs.rarity == spec_rarity(rs.sat.0 as int)
                    &&& rs.rarity != Rarity::Common
                },
            forall|i: int, j: int| 0 <= i < j < out.len() ==> out[i].offset < out[j].offset,
            forall|s: int|
                range.first <= s < cur && s < range.last && spec_rarity(s) != Rarity::Common
                    ==> exists|i: int| 0 <= i < out.len() && (#[trigger] out[i]).sat.0 == s,
        decreases range.last - cur,
    {
        let rarity = classify(Sat(cur));
        proof {
            lemma_rarity_by_third(cur as int);
        }
        let ghost old_out = out@;
        out.push(RaritySat { sat: Sat(cur), offset: cur - range.first, rarity });
        let (_h, _third, sub) = sat_decompose(cur);
        let next = cur + sub;
        proof {
            assert forall|s: int| cur < s < next && s < range.last implies spec_rarity(s)
                == Rarity::Common by {
                lemma_block_span(cur as int, s - cur);
                lemma_rarity_by_third(s);
            }
            assert(sub == epoch_subsidy(sat_epoch(cur as int)));
            assert forall|s: int|
                range.first <= s < next && s < range.last && spec_rarity(s) != Rarity::Common
                    implies exists|i: int| 0 <= i < out.len() && (#[trigger] out[i]).sat.0
                == s by {
                if s == cur as int {
                    assert(out[out.len() - 1].sat.0 == s);
                } else if s < cur as int {
                    let i = choose|i: int| 0 <= i < old_out.len() && (#[trigger] old_out[i]).sat.0 == s;
                    assert(out[i].sat.0 == s);
                }
            }
            if next < range.last {
                lemma_next_block(cur as int);
            }
        }
        cur = if next < range.last {
            next
        } else {
            range.last
        };
    }
    out
}

/// The tiers are totally ordered, from Common up to Mythic.
pub open spec fn rarity_rank(r: Rarity) -> int {
    match r {
        Rarity::Common => 0,
        Rarity::Uncommon => 1,
        Rarity::Rare => 2,
        Rarity::Epic => 3,
        Rarity::Legendary => 4,
        Rarity::Mythic => 5,
    }
}

/// Position of a tier in the rarity order; greater means rarer.
pub fn rank(r: Rarity) -> (n: u8)
    ensures
        n as int == rarity_rank(r),
{
    match r {
        Rarity::Common => 0,
        Rarity::Uncommon => 1,
        Rarity::Rare => 2,
        Rarity::Epic => 3,
        Rarity::Legendary => 4,
        Rarity::Mythic => 5,
    }
}

/// The first satoshi ever mined is Mythic, and the tiers are strictly
/// ordered from Common up to Mythic.
pub proof fn lemma_rarity_order()
    ensures
        spec_rarity(0) == Rarity::Mythic,
        rarity_rank(Rarity::Common) < rarity_rank(Rarity::Uncommon)
            < rarity_rank(Rarity::Rare) < rarity_rank(Rarity::Epic)
            < rarity_rank(Rarity::Legendary) < rarity_rank(Rarity::Mythic),
{
}

} // verus!
