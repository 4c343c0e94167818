//! The `SSTORE` price and refund, against the schedules of the EIPs.

use revm::gas::{self, SStoreStatus, SSTORE_STATUS_COUNT};
use revm::host::SStoreResult;
use revm::primitives::hardfork::SPEC_COUNT;
use revm::primitives::{SpecId, U256};

const ALL_SPECS: [SpecId; 21] = [
    SpecId::FRONTIER,
    SpecId::FRONTIER_THAWING,
    SpecId::HOMESTEAD,
    SpecId::DAO_FORK,
    SpecId::TANGERINE,
    SpecId::SPURIOUS_DRAGON,
    SpecId::BYZANTIUM,
    SpecId::CONSTANTINOPLE,
    SpecId::PETERSBURG,
    SpecId::ISTANBUL,
    SpecId::MUIR_GLACIER,
    SpecId::BERLIN,
    SpecId::LONDON,
    SpecId::ARROW_GLACIER,
    SpecId::GRAY_GLACIER,
    SpecId::MERGE,
    SpecId::SHANGHAI,
    SpecId::CANCUN,
    SpecId::PRAGUE,
    SpecId::OSAKA,
    SpecId::AMSTERDAM,
];

fn eip_reference(spec: SpecId, original: u64, present: u64, new: u64, is_cold: bool) -> (u64, i64) {
    let istanbul = spec.index() >= SpecId::ISTANBUL.index();
    let berlin = spec.index() >= SpecId::BERLIN.index();
    let london = spec.index() >= SpecId::LONDON.index();

    if !istanbul {
        let cost = if present == 0 && new != 0 {
            20_000
        } else {
            5_000
        };
        let refund = if present != 0 && new == 0 { 15_000 } else { 0 };
        return (cost, refund);
    }

    let sload_gas: u64 = if berlin { 100 } else { 800 };
    let sstore_reset_gas: u64 = if berlin { 2_900 } else { 5_000 };
    let sstore_set_gas: u64 = 20_000;
    let clears: i64 = if london { 4_800 } else { 15_000 };
    let cold: u64 = if berlin && is_cold { 2_100 } else { 0 };

    let mut cost;
    let mut refund: i64 = 0;

    if present == new {
        cost = sload_gas;
    } else if original == present {
        if original == 0 {
            cost = sstore_set_gas;
        } else {
            cost = sstore_reset_gas;
            if new == 0 {
                refund += clears;
            }
        }
    } else {
        cost = sload_gas;
        if original != 0 {
            if present == 0 {
                refund -= clears;
            } else if new == 0 {
                refund += clears;
            }
        }
        if original == new {
            if original == 0 {
                refund += (sstore_set_gas - sload_gas) as i64;
            } else {
                refund += (sstore_reset_gas - sload_gas) as i64;
            }
        }
    }
    cost += cold;
    (cost, refund)
}

fn vals(o: u64, p: u64, n: u64) -> SStoreResult {
    SStoreResult {
        original_value: U256::from_u64(o),
        present_value: U256::from_u64(p),
        new_value: U256::from_u64(n),
    }
}

#[test]
fn the_table_matches_the_eips_entry_by_entry() {
    for spec in ALL_SPECS {
        let spec_row = gas::sstore_spec(spec);
        for o in 0..4u64 {
            for p in 0..4u64 {
                for n in 0..4u64 {
                    let v = vals(o, p, n);
                    let entry = gas::sstore_entry(spec, gas::sstore_status(&v));
                    for is_cold in [false, true] {
                        let (want_total, want_refund) = eip_reference(spec, o, p, n, is_cold);
                        let got_total = spec_row.static_cost as u64
                            + entry.dyn_cost as u64
                            + if is_cold {
                                spec_row.cold_extra as u64
                            } else {
                                0
                            };
                        assert_eq!(
                            got_total, want_total,
                            "{spec:?} {o}->{p}->{n} cold={is_cold}: cost"
                        );
                        assert_eq!(
                            entry.refund as i64, want_refund,
                            "{spec:?} {o}->{p}->{n} cold={is_cold}: refund"
                        );
                    }
                }
            }
        }
    }
}

#[test]
fn the_eip_2200_worked_examples_at_prague() {
    let cases: &[(u64, u64, u64, u64, i64)] = &[
        (0, 0, 0, 100, 0),              // no-op on an untouched empty slot
        (0, 0, 1, 20_000, 0),           // set
        (0, 1, 0, 100, 19_900),         // added then deleted in the same tx
        (0, 1, 2, 100, 0),              // added then reassigned
        (1, 1, 1, 100, 0),              // no-op
        (1, 1, 0, 2_900, 4_800),        // delete   (SSTORE_RESET_GAS is 2900 from Berlin)
        (1, 1, 2, 2_900, 0),            // modify
        (1, 2, 0, 100, 4_800),          // modified then deleted
        (1, 0, 2, 100, -4_800),         // deleted then added
        (1, 0, 1, 100, -4_800 + 2_800), // deleted then restored
        (1, 2, 1, 100, 2_800),          // modified then restored
        (1, 2, 3, 100, 0),              // reassigned twice
    ];
    let spec = SpecId::PRAGUE;
    let spec_row = gas::sstore_spec(spec);
    for &(o, p, n, want_gas, want_refund) in cases {
        let v = vals(o, p, n);
        let entry = gas::sstore_entry(spec, gas::sstore_status(&v));
        assert_eq!(
            spec_row.static_cost as u64 + entry.dyn_cost as u64,
            want_gas,
            "{o}->{p}->{n}: gas"
        );
        assert_eq!(entry.refund as i64, want_refund, "{o}->{p}->{n}: refund");
        assert_eq!(spec_row.cold_extra, 2_100);
    }
}

#[test]
fn the_nine_statuses_are_reached_by_exactly_the_documented_shapes() {
    let expect = |o: u64, p: u64, n: u64| -> SStoreStatus {
        if n == p {
            return SStoreStatus::Assigned;
        }
        match (o == 0, p == 0, n == 0, o == p, o == n) {
            (true, true, _, _, _) => SStoreStatus::Added,                         // 0 -> 0 -> Z
            (false, _, true, true, _) => SStoreStatus::Deleted,                   // X -> X -> 0
            (false, false, false, true, _) => SStoreStatus::Modified,             // X -> X -> Z
            (false, true, false, false, false) => SStoreStatus::DeletedAdded,     // X -> 0 -> Z
            (false, false, true, false, _) => SStoreStatus::ModifiedDeleted,      // X -> Y -> 0
            (false, true, false, false, true) => SStoreStatus::DeletedRestored,   // X -> 0 -> X
            (true, false, true, false, _) => SStoreStatus::AddedDeleted,          // 0 -> Y -> 0
            (false, false, false, false, true) => SStoreStatus::ModifiedRestored, // X -> Y -> X
            _ => SStoreStatus::Assigned,
        }
    };
    for o in 0..4u64 {
        for p in 0..4u64 {
            for n in 0..4u64 {
                assert_eq!(
                    gas::sstore_status(&vals(o, p, n)),
                    expect(o, p, n),
                    "{o}->{p}->{n}"
                );
            }
        }
    }
}

#[test]
fn the_tables_are_indexed_by_the_spec_discriminant() {
    for (i, spec) in ALL_SPECS.iter().enumerate() {
        assert_eq!(spec.index(), i, "ALL_SPECS is not in discriminant order");
    }
    assert_eq!(SPEC_COUNT, ALL_SPECS.len());
    let mut seen = [false; SSTORE_STATUS_COUNT];
    for o in 0..4u64 {
        for p in 0..4u64 {
            for n in 0..4u64 {
                seen[gas::sstore_status(&vals(o, p, n)) as usize] = true;
            }
        }
    }
    assert!(seen.iter().all(|s| *s));
    assert!(
        SpecId::try_from_u8(ALL_SPECS.len() as u8).is_none(),
        "a SpecId variant was added without extending SSTORE_GAS/SSTORE_SPEC"
    );
    assert!(SpecId::try_from_u8((ALL_SPECS.len() - 1) as u8).is_some());
}
