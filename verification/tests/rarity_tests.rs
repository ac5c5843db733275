use ord_core::api::{sat_ranges_with_rarity, ApiSatRange};
use ord_core::rarity::{classify, rank, segment, Rarity, Sat, SatRange, MAX_SAT};

#[test]
fn classify_sat_zero_is_mythic() {
    assert_eq!(classify(Sat(0)), Rarity::Mythic);
}

#[test]
fn classify_mid_block_sats_are_common() {
    assert_eq!(classify(Sat(1)), Rarity::Common);
    assert_eq!(classify(Sat(4_999_999_999)), Rarity::Common);
    assert_eq!(classify(Sat(5_000_000_001)), Rarity::Common);
}

#[test]
fn classify_block_starts() {
    // first sat of block 1: uncommon
    assert_eq!(classify(Sat(5_000_000_000)), Rarity::Uncommon);
    // first sat of block 2016 (difficulty adjustment): rare
    assert_eq!(classify(Sat(2016 * 5_000_000_000)), Rarity::Rare);
    // first sat of block 210000 (halving): epic
    assert_eq!(classify(Sat(210_000 * 5_000_000_000)), Rarity::Epic);
    // first sat of block 1260000 (halving meets difficulty adjustment):
    // legendary; block 1260000 opens epoch 6
    assert_eq!(classify(Sat(2_067_187_500_000_000)), Rarity::Legendary);
}

#[test]
fn classify_last_sat() {
    // in the final epoch the subsidy is one satoshi per block, so the last
    // satoshi ever mined opens its block
    assert_eq!(classify(Sat(MAX_SAT)), Rarity::Uncommon);
}

#[test]
fn tiers_are_ordered() {
    assert!(rank(Rarity::Common) < rank(Rarity::Uncommon));
    assert!(rank(Rarity::Uncommon) < rank(Rarity::Rare));
    assert!(rank(Rarity::Rare) < rank(Rarity::Epic));
    assert!(rank(Rarity::Epic) < rank(Rarity::Legendary));
    assert!(rank(Rarity::Legendary) < rank(Rarity::Mythic));
    assert!(Rarity::Common < Rarity::Uncommon && Rarity::Legendary < Rarity::Mythic);
}

#[test]
fn segment_reconstructs_sats_from_offsets() {
    let out = segment(SatRange { first: 0, last: 10_000_000_001 });
    // sat 0 (mythic) and sat 5_000_000_000 (uncommon) and sat 10_000_000_000
    assert_eq!(out.len(), 3);
    assert_eq!(out[0].sat, Sat(0));
    assert_eq!(out[0].offset, 0);
    assert_eq!(out[0].rarity, Rarity::Mythic);
    assert_eq!(out[1].sat, Sat(5_000_000_000));
    assert_eq!(out[1].offset, 5_000_000_000);
    assert_eq!(out[1].rarity, Rarity::Uncommon);
    assert_eq!(out[2].sat, Sat(10_000_000_000));
    assert_eq!(out[2].offset, 10_000_000_000);
    for rs in &out {
        assert_eq!(rs.sat.0, 0 + rs.offset);
        assert_ne!(rs.rarity, Rarity::Common);
    }
    for w in out.windows(2) {
        assert!(w[0].offset < w[1].offset);
    }
}

#[test]
fn segment_with_no_special_sat_is_empty() {
    let out = segment(SatRange { first: 1, last: 100 });
    assert!(out.is_empty());
}

#[test]
fn segment_offset_is_relative_to_range_start() {
    let out = segment(SatRange { first: 4_999_999_999, last: 5_000_000_001 });
    assert_eq!(out.len(), 1);
    assert_eq!(out[0].sat, Sat(5_000_000_000));
    assert_eq!(out[0].offset, 1);
}

#[test]
fn ranges_with_rarity_keeps_offsets_per_range() {
    // the second range holds sat 0: it must be reported as mythic at
    // offset 0 from that range's own start, whatever came before
    let ranges = vec![(1u64, 2u64), (0u64, 5_000_000_001u64)];
    let out = sat_ranges_with_rarity(&ranges);
    assert_eq!(out.len(), 2);
    match &out[0] {
        ApiSatRange::ExactWithRarity { first, last, rarity_sats } => {
            assert_eq!((*first, *last), (1, 2));
            assert!(rarity_sats.is_empty());
        }
        _ => panic!("expected rarity detail"),
    }
    match &out[1] {
        ApiSatRange::ExactWithRarity { first, last, rarity_sats } => {
            assert_eq!((*first, *last), (0, 5_000_000_001));
            assert_eq!(rarity_sats.len(), 2);
            assert_eq!(rarity_sats[0].sat, Sat(0));
            assert_eq!(rarity_sats[0].offset, 0);
            assert_eq!(rarity_sats[0].rarity, Rarity::Mythic);
            assert_eq!(rarity_sats[1].sat, Sat(5_000_000_000));
            assert_eq!(rarity_sats[1].offset, 5_000_000_000);
            assert_eq!(rarity_sats[1].rarity, Rarity::Uncommon);
        }
        _ => panic!("expected rarity detail"),
    }
}
