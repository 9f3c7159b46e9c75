//! The row budget of the relation's circuit within a block's proof.
use vstd::prelude::*;

verus! {

/// Rows in the circuit: 2^20.
pub const TOTAL_ROWS: usize = 1048576;

/// The rows left usable when `unusable_rows` are lost to blinding, as the
/// flex gate counts them: the blinding factors and three more.
pub fn min_num_rows(unusable_rows: usize) -> (r: usize)
    requires
        1 <= unusable_rows,
        unusable_rows + 2 <= TOTAL_ROWS,
    ensures
        r == TOTAL_ROWS - ((unusable_rows - 1) + 3),
{
    let max_blinding_factor = unusable_rows - 1;
    TOTAL_ROWS - (max_blinding_factor + 3)
}

/// The largest of three counts.
pub open spec fn max3(a: int, b: int, c: int) -> int {
    if a >= b && a >= c {
        a
    } else if b >= c {
        b
    } else {
        c
    }
}

/// The row count granted to the circuit: the block's own limit, or the
/// usable rows where the block sets none.
pub open spec fn granted_rows(max_vertical_rows: usize, unusable_rows: usize) -> int {
    if max_vertical_rows == 0 {
        TOTAL_ROWS - ((unusable_rows - 1) + 3)
    } else {
        max_vertical_rows as int
    }
}

/// Rows that `count` operations take when `limit` of them fill `rows`.
pub open spec fn share_of(rows: int, limit: usize, count: usize) -> int {
    (rows / limit as int) * count as int
}

/// The row usage of a block's curve operations, as a share of the granted
/// rows: each kind of operation takes its count's share of the rows that
/// its limit would fill, and the block uses the largest. Returns that usage
/// and the granted rows.
pub fn min_num_rows_block(
    max_vertical_rows: usize,
    unusable_rows: usize,
    ec_adds: usize,
    ec_muls: usize,
    ec_pairings: usize,
    max_ec_add: usize,
    max_ec_mul: usize,
    max_ec_pairing: usize,
) -> (r: (usize, usize))
    requires
        max_vertical_rows == 0 ==> 1 <= unusable_rows && unusable_rows + 2 <= TOTAL_ROWS,
        max_ec_add > 0,
        max_ec_mul > 0,
        max_ec_pairing > 0,
        share_of(granted_rows(max_vertical_rows, unusable_rows), max_ec_add, ec_adds) <= usize::MAX,
        share_of(granted_rows(max_vertical_rows, unusable_rows), max_ec_mul, ec_muls) <= usize::MAX,
        share_of(granted_rows(max_vertical_rows, unusable_rows), max_ec_pairing, ec_pairings)
            <= usize::MAX,
    ensures
        r.1 == granted_rows(max_vertical_rows, unusable_rows),
        r.0 == max3(
            share_of(r.1 as int, max_ec_add, ec_adds),
            share_of(r.1 as int, max_ec_mul, ec_muls),
            share_of(r.1 as int, max_ec_pairing, ec_pairings),
        ),
{
    let row_num = if max_vertical_rows == 0 {
        min_num_rows(unusable_rows)
    } else {
        max_vertical_rows
    };
    let adds = (row_num / max_ec_add) * ec_adds;
    let muls = (row_num / max_ec_mul) * ec_muls;
    let pairings = (row_num / max_ec_pairing) * ec_pairings;
    let most = if adds >= muls && adds >= pairings {
        adds
    } else if muls >= pairings {
        muls
    } else {
        pairings
    };
    (most, row_num)
}

} // verus!
