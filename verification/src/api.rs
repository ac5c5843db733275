use crate::operation::OutPoint;
use crate::rarity::{segment, spec_rarity, Rarity, RaritySat, SatRange, SUPPLY};
use vstd::prelude::*;

verus! {

// The records below are what the HTTP collaborator serializes for outpoint
// queries; building them from the UTXO layer's ranges is the computation
// and lives here, while reading the index and answering requests is I/O and
// stays outside the library.

/// Reply to an outpoint query: the ranges (absent when no satoshi index is
/// kept) and the chain tip the answer was computed at.
#[derive(Debug, PartialEq)]
pub struct ApiOutPointResult {
    pub result: Option<ApiSatRanges>,
    pub latest_blockhash: String,
    pub latest_height: u32,
}

/// The satoshi ranges of one transaction output.
#[derive(Debug, PartialEq)]
pub struct ApiSatRanges {
    pub outpoint: OutPoint,
    pub sat_ranges: Vec<ApiSatRange>,
}

/// One satoshi range: either the bare `[first, last)` pair, or the pair
/// with its non-Common satoshis when rarity detail was requested.
#[derive(Debug, PartialEq)]
pub enum ApiSatRange {
    Sketchy((u64, u64)),
    ExactWithRarity { first: u64, last: u64, rarity_sats: Vec<RaritySat> },
}

/// All ranges are non-empty and lie within the supply.
pub open spec fn ranges_wf(rs: Seq<(u64, u64)>) -> bool {
    forall|i: int| 0 <= i < rs.len() ==> ((#[trigger] rs[i]).0 < rs[i].1 <= SUPPLY)
}

/// The rarity detail of one range: each entry is a non-Common satoshi of
/// `[first, last)` with its correct tier, at offset `sat - first` from the
/// range's own start; entries ascend, and every non-Common satoshi of the
/// range is listed.
pub open spec fn rarity_entries_ok(sats: Seq<RaritySat>, first: u64, last: u64) -> bool {
    &&& forall|k: int|
        0 <= k < sats.len() ==> {
            let rs = #[trigger] sats[k];
            &&& first <= rs.sat.0 < last
            &&& rs.rarity == spec_rarity(rs.sat.0 as int)
            &&& rs.rarity != Rarity::Common
            &&& rs.offset == rs.sat.0 - first
        }
    &&& forall|k1: int, k2: int| 0 <= k1 < k2 < sats.len() ==> sats[k1].sat.0 < sats[k2].sat.0
    &&& forall|s: int|
        first <= s < last && spec_rarity(s) != Rarity::Common ==> exists|k: int|
            0 <= k < sats.len() && (#[trigger] sats[k]).sat.0 == s
}

/// One answered range: the input pair with its rarity detail.
pub open spec fn api_range_ok(r: ApiSatRange, rg: (u64, u64)) -> bool {
    match r {
        ApiSatRange::ExactWithRarity { first, last, rarity_sats } => first == rg.0 && last == rg.1
            && rarity_entries_ok(rarity_sats@, first, last),
        _ => false,
    }
}

/// The bare form of an output's ranges, when rarity detail is not asked.
pub fn build_sat_ranges(outpoint: OutPoint, ranges: Vec<(u64, u64)>) -> (r: ApiSatRanges)
    ensures
        r.outpoint == outpoint,
        r.sat_ranges@.len() == ranges@.len(),
        forall|i: int|
            0 <= i < ranges@.len() ==> r.sat_ranges@[i] == ApiSatRange::Sketchy(ranges@[i]),
{
    let mut sat_ranges: Vec<ApiSatRange> = Vec::new();
    let mut i: usize = 0;
    while i < ranges.len()
        invariant
            i <= ranges@.len(),
            sat_ranges@.len() == i,
            forall|j: int|
                0 <= j < i ==> sat_ranges@[j] == ApiSatRange::Sketchy(ranges@[j]),
        decreases ranges@.len() - i,
    {
        sat_ranges.push(ApiSatRange::Sketchy(ranges[i]));
        i = i + 1;
    }
    ApiSatRanges { outpoint, sat_ranges }
}

/// The detailed form of an output's ranges: each range with every one of
/// its non-Common satoshis, offsets relative to that range's own start.
#[verifier::rlimit(60)]
pub fn sat_ranges_with_rarity(ranges: &Vec<(u64, u64)>) -> (out: Vec<ApiSatRange>)
    requires
        ranges_wf(ranges@),
    ensures
        out@.len() == ranges@.len(),
        forall|i: int|
            0 <= i < out@.len() ==> api_range_ok(#[trigger] out@[i], ranges@[i]),
{
    let mut out: Vec<ApiSatRange> = Vec::new();
    let mut i: usize = 0;
    while i < ranges.len()
        invariant
            ranges_wf(ranges@),
            i <= ranges@.len(),
            out@.len() == i,
            forall|j: int| 0 <= j < i ==> api_range_ok(#[trigger] out@[j], ranges@[j]),
        decreases ranges@.len() - i,
    {
        let (first, last) = ranges[i];
        let rarity_sats = segment(SatRange { first, last });
        out.push(ApiSatRange::ExactWithRarity { first, last, rarity_sats });
        i = i + 1;
    }
    out
}

} // verus!
