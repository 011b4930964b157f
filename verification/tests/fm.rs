use tone_smithy::fm::{algorithm, algorithms, ALGORITHM_COUNT, OPERATOR_COUNT};

#[test]
fn algorithm_table_has_expected_shape() {
    let table = algorithms();
    assert_eq!(table.len(), ALGORITHM_COUNT);

    // Algorithm 1: stack 3→2→1→0, op 0 carrier
    let a1 = table[0];
    assert_eq!(a1.mod_sources, [0b0010, 0b0100, 0b1000, 0]);
    assert_eq!(a1.is_carrier, [true, false, false, false]);

    // Algorithm 2: same stack plus op 3 self-feedback
    let a2 = table[1];
    assert_eq!(a2.mod_sources, [0b0010, 0b0100, 0b1000, 0b1000]);
    assert_eq!(a2.is_carrier, [true, false, false, false]);

    // Algorithm 7: pure additive
    let a7 = table[6];
    assert_eq!(a7.mod_sources, [0, 0, 0, 0]);
    assert_eq!(a7.is_carrier, [true, true, true, true]);
}

#[test]
fn every_algorithm_has_at_least_one_carrier() {
    for (i, alg) in algorithms().iter().enumerate() {
        assert!(alg.is_carrier.iter().any(|&c| c), "algorithm {i} has no carriers");
    }
}

#[test]
fn modulators_come_from_higher_operators_or_op3_feedback() {
    for alg in algorithms().iter() {
        for op in 0..OPERATOR_COUNT {
            for src in 0..OPERATOR_COUNT {
                if alg.modulates(op, src) {
                    assert!(src > op || (src == op && op == 3));
                }
            }
        }
    }
    let branching = algorithm(4);
    assert!(branching.modulates(0, 2) && branching.modulates(0, 3));
    assert!(!branching.modulates(0, 1));
    assert!(algorithm(1).modulates(3, 3));
}

#[test]
fn out_of_range_algorithm_reads_as_the_last() {
    let table = algorithms();
    assert_eq!(algorithm(7), table[7]);
    assert_eq!(algorithm(200), table[7]);
    assert_eq!(algorithm(3), table[3]);
}
