//! The classical Game-of-Life transition rule over Moore neighborhoods.
//!
//! Off-grid neighbors always count as dead: a failed access contributes 0
//! to the neighbor survey instead of wrapping to the opposite edge.

use vstd::prelude::*;

use crate::grid::{BMatrixVector, GridView};

verus! {

/// 1 if `(i, j)` is an on-grid live cell, 0 otherwise (off-grid is dead).
pub open spec fn spec_live(g: GridView, i: int, j: int) -> int {
    if g.in_bounds(i, j) && g.at(i, j) {
        1
    } else {
        0
    }
}

/// Number of live cells among the 8 Moore neighbors of `(i, j)`.
pub open spec fn spec_count(g: GridView, i: int, j: int) -> int {
    spec_live(g, i + 1, j) + spec_live(g, i + 1, j + 1) + spec_live(g, i, j + 1)
        + spec_live(g, i - 1, j + 1) + spec_live(g, i - 1, j) + spec_live(g, i - 1, j - 1)
        + spec_live(g, i, j - 1) + spec_live(g, i + 1, j - 1)
}

/// The classical rule: a dead cell is born on exactly 3 live neighbors; a
/// live cell survives on 2 or 3.
pub open spec fn spec_next_state(state: bool, count: int) -> bool {
    if state {
        count == 2 || count == 3
    } else {
        count == 3
    }
}

/// Converts one probed cell to its contribution to the neighbor count:
/// off-grid probes are swallowed and count as dead.
pub fn convert_bool(i: i32, j: i32, b_matrix_vector: &BMatrixVector) -> (r: u32)
    requires
        b_matrix_vector.wf(),
    ensures
        r == spec_live(b_matrix_vector@, i as int, j as int),
        r <= 1,
{
    match b_matrix_vector.at(i, j) {
        Ok(value) => if value {
            1
        } else {
            0
        },
        Err(_) => 0,
    }
}

/// Surveys the 8 Moore neighbors of `(i, j)`; the survey may probe one step
/// outside the grid, which counts as dead.
pub fn get_count(i: i32, j: i32, b_matrix_vector: &BMatrixVector) -> (r: u32)
    requires
        b_matrix_vector.wf(),
        i32::MIN < i < i32::MAX,
        i32::MIN < j < i32::MAX,
    ensures
        r == spec_count(b_matrix_vector@, i as int, j as int),
        r <= 8,
{
    let mut total: u32 = 0;
    total += convert_bool(i + 1, j, b_matrix_vector);
    total += convert_bool(i + 1, j + 1, b_matrix_vector);
    total += convert_bool(i, j + 1, b_matrix_vector);
    total += convert_bool(i - 1, j + 1, b_matrix_vector);
    total += convert_bool(i - 1, j, b_matrix_vector);
    total += convert_bool(i - 1, j - 1, b_matrix_vector);
    total += convert_bool(i, j - 1, b_matrix_vector);
    total + convert_bool(i + 1, j - 1, b_matrix_vector)
}

/// Applies the transition rule to one cell, given its current state and its
/// live-neighbor count. The buffer argument is kept for signature fidelity
/// with the callers; the rule itself is pure.
pub fn new_cell_value(state: bool, count: u32, b_matrix_vector: &BMatrixVector) -> (r: bool)
    ensures
        r == spec_next_state(state, count as int),
{
    match state {
        false => {
            if count == 3 {
                true
            } else {
                false
            }
        },
        true => {
            if count == 2 || count == 3 {
                true
            } else {
                false
            }
        },
    }
}

} // verus!
