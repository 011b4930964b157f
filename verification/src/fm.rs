//! 4-operator FM routing.
//!
//! An FM slot wires four operators together by an [`Algorithm`]: which
//! operators modulate which, and which are carriers summed into the slot's
//! output. Evaluation runs op 3 → op 2 → op 1 → op 0, so an operator may be
//! modulated by any higher-indexed operator's same-sample output; the only
//! back-edge is op 3's one-sample-delayed self-feedback. This module holds
//! the eight starter algorithms and proves they respect that order.

use vstd::prelude::*;

verus! {

/// Number of operators per FM bank.
pub const OPERATOR_COUNT: usize = 4;

/// Number of starter algorithms.
pub const ALGORITHM_COUNT: usize = 8;

/// Maximum integer ratio multiplier per operator.
pub const RATIO_INTEGER_MAX: u8 = 15;

/// A static FM routing graph. `mod_sources[i]` is a bitmask: bit `j` set
/// means operator `j` feeds operator `i`'s phase modulation (for `j == i`,
/// its own previous output through the feedback amount). `is_carrier[i]`
/// means operator `i` is summed into the slot output.
#[derive(Debug, Clone, Copy, PartialEq, Eq)]
pub struct Algorithm {
    pub mod_sources: [u8; OPERATOR_COUNT],
    pub is_carrier: [bool; OPERATOR_COUNT],
}

/// Bit `j` of `mask`.
pub open spec fn bit(mask: u8, j: u8) -> bool {
    (mask >> j) & 1u8 == 1u8
}

/// The starter algorithm with 0-based index `a`, as
/// `(mod_sources, is_carrier)`. Names use 1-based DX7 numbering ("4→3"
/// means op 3 modulates op 2).
pub open spec fn algorithm_table(a: int) -> (Seq<u8>, Seq<bool>) {
    if a == 0 {
        // 1: Stack 4→3→2→1
        (seq![0b0010u8, 0b0100, 0b1000, 0], seq![true, false, false, false])
    } else if a == 1 {
        // 2: Stack 4→3→2→1 with op 3 self-feedback
        (seq![0b0010u8, 0b0100, 0b1000, 0b1000], seq![true, false, false, false])
    } else if a == 2 {
        // 3: Two stacks (4→3 into 2→1) mixed
        (seq![0b0010u8, 0, 0b1000, 0], seq![true, false, true, false])
    } else if a == 3 {
        // 4: Op 3 modulates ops 0, 1, 2
        (seq![0b1000u8, 0b1000, 0b1000, 0], seq![true, true, true, false])
    } else if a == 4 {
        // 5: 3→2, 3→1, 2→0
        (seq![0b1100u8, 0b0100, 0b1000, 0], seq![true, false, false, false])
    } else if a == 5 {
        // 6: 2+1 mod op 0; op 3 separate carrier
        (seq![0b0110u8, 0, 0, 0], seq![true, false, false, true])
    } else if a == 6 {
        // 7: All four parallel (additive)
        (seq![0u8, 0, 0, 0], seq![true, true, true, true])
    } else {
        // 8: 3→1, 2→0; both carriers
        (seq![0b1000u8, 0b0100, 0, 0], seq![true, true, false, false])
    }
}

impl Algorithm {
    /// This routing is starter algorithm `a`.
    pub open spec fn is_table_entry(self, a: int) -> bool {
        self.mod_sources@ == algorithm_table(a).0 && self.is_carrier@ == algorithm_table(a).1
    }

    /// Whether operator `src` feeds operator `op`'s phase modulation.
    pub fn modulates(&self, op: usize, src: usize) -> (b: bool)
        requires
            op < OPERATOR_COUNT,
            src < OPERATOR_COUNT,
        ensures
            b == bit(self.mod_sources@[op as int], src as u8),
    {
        (self.mod_sources[op] >> (src as u8)) & 1u8 == 1u8
    }
}

fn make(m: [u8; OPERATOR_COUNT], c: [bool; OPERATOR_COUNT]) -> (r: Algorithm)
    ensures
        r.mod_sources == m,
        r.is_carrier == c,
{
    Algorithm { mod_sources: m, is_carrier: c }
}

/// The eight starter algorithms, in table order.
pub fn algorithms() -> (r: [Algorithm; ALGORITHM_COUNT])
    ensures
        forall|a: int| 0 <= a < ALGORITHM_COUNT ==> (#[trigger] r@[a]).is_table_entry(a),
{
    let r = [
        make([0b0010, 0b0100, 0b1000, 0], [true, false, false, false]),
        make([0b0010, 0b0100, 0b1000, 0b1000], [true, false, false, false]),
        make([0b0010, 0, 0b1000, 0], [true, false, true, false]),
        make([0b1000, 0b1000, 0b1000, 0], [true, true, true, false]),
        make([0b1100, 0b0100, 0b1000, 0], [true, false, false, false]),
        make([0b0110, 0, 0, 0], [true, false, false, true]),
        make([0, 0, 0, 0], [true, true, true, true]),
        make([0b1000, 0b0100, 0, 0], [true, true, false, false]),
    ];
    assert forall|a: int| 0 <= a < ALGORITHM_COUNT implies (#[trigger] r@[a]).is_table_entry(a) by {
        assert(r@[a].mod_sources@ =~= algorithm_table(a).0);
        assert(r@[a].is_carrier@ =~= algorithm_table(a).1);
    }
    r
}

/// Starter algorithm `index`; indices past the table read as the last one
/// (the FM bank clamps its selection the same way).
pub fn algorithm(index: u8) -> (r: Algorithm)
    ensures
        r.is_table_entry(if index < ALGORITHM_COUNT {
            index as int
        } else {
            ALGORITHM_COUNT - 1
        }),
{
    let table = algorithms();
    let i: usize = if (index as usize) < ALGORITHM_COUNT {
        index as usize
    } else {
        ALGORITHM_COUNT - 1
    };
    table[i]
}

/// Every starter algorithm has at least one carrier, so every algorithm is
/// audible.
pub proof fn lemma_every_algorithm_has_a_carrier(a: int)
    requires
        0 <= a < ALGORITHM_COUNT,
    ensures
        exists|i: int| 0 <= i < OPERATOR_COUNT && #[trigger] algorithm_table(a).1[i],
{
    assert(algorithm_table(a).1[0]);
}

proof fn lemma_mask_bits(j: u8)
    requires
        j < 8,
    ensures
        !bit(0u8, j),
        bit(0b0010u8, j) == (j == 1),
        bit(0b0100u8, j) == (j == 2),
        bit(0b1000u8, j) == (j == 3),
        bit(0b1100u8, j) == (j == 2 || j == 3),
        bit(0b0110u8, j) == (j == 1 || j == 2),
{
    assert((0u8 >> j) & 1u8 != 1u8) by (bit_vector)
        requires
            j < 8,
    ;
    assert(((0b0010u8 >> j) & 1u8 == 1u8) == (j == 1)) by (bit_vector)
        requires
            j < 8,
    ;
    assert(((0b0100u8 >> j) & 1u8 == 1u8) == (j == 2)) by (bit_vector)
        requires
            j < 8,
    ;
    assert(((0b1000u8 >> j) & 1u8 == 1u8) == (j == 3)) by (bit_vector)
        requires
            j < 8,
    ;
    assert(((0b1100u8 >> j) & 1u8 == 1u8) == (j == 2 || j == 3)) by (bit_vector)
        requires
            j < 8,
    ;
    assert(((0b0110u8 >> j) & 1u8 == 1u8) == (j == 1 || j == 2)) by (bit_vector)
        requires
            j < 8,
    ;
}

/// Every starter algorithm respects the single-pass evaluation order: an
/// operator is only modulated by higher-indexed operators, except op 3's
/// self-feedback.
pub proof fn lemma_forward_evaluation_order(a: int, op: int, src: u8)
    requires
        0 <= a < ALGORITHM_COUNT,
        0 <= op < OPERATOR_COUNT,
        src < OPERATOR_COUNT,
        bit(algorithm_table(a).0[op], src),
    ensures
        src > op || (src == op && op == 3),
{
    lemma_mask_bits(src);
}

/// Ops 0, 1 and 2 are carriers that op 3 alone modulates, and op 3 is an
/// unmodulated, silent modulator: one modulator shared by three carriers.
pub open spec fn op3_drives_three_carriers(m: Seq<u8>, c: Seq<bool>) -> bool {
    &&& forall|op: int| 0 <= op < 3 ==> #[trigger] c[op]
    &&& !c[3]
    &&& forall|op: int, j: u8|
        #![trigger bit(m[op], j)]
        0 <= op < 3 && j < 4 ==> (bit(m[op], j) <==> j == 3)
    &&& forall|j: u8| j < 4 ==> !#[trigger] bit(m[3], j)
}

/// Parallel modulation — op 3 modulating each of three carriers, ops 0, 1
/// and 2 — is starter algorithm 4 (index 3), and no other starter
/// algorithm is wired that way.
pub proof fn lemma_parallel_modulation_is_algorithm_four(a: int)
    requires
        0 <= a < ALGORITHM_COUNT,
    ensures
        op3_drives_three_carriers(algorithm_table(a).0, algorithm_table(a).1) <==> a == 3,
{
    let (m, c) = algorithm_table(a);
    if a == 3 {
        assert forall|op: int, j: u8| 0 <= op < 3 && j < 4 implies (bit(m[op], j) <==> j == 3) by {
            lemma_mask_bits(j);
        }
        assert forall|j: u8| j < 4 implies !#[trigger] bit(m[3], j) by {
            lemma_mask_bits(j);
        }
    } else if a == 6 {
        assert(c[3]);
    } else if a == 7 {
        assert(!c[2]);
    } else {
        assert(!c[1]);
    }
}

} // verus!
