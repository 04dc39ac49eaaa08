//! The constraints of the MDS gate: they are linear in the wires of a
//! row, and on a row of field elements they are the same whether the row
//! is taken as it is or as a row of elements of the extension.

use crate::field::extension::{ext_embed, lemma_ext_embed_homomorphic};
use crate::field::types::{
    congruent, field_add, field_mul, lemma_congruent_reflexive, lemma_congruent_remainder,
    lemma_field_add_congruent, lemma_field_scale_congruent, lemma_field_sub_congruent,
    lemma_remainder_congruent, ORDER,
};
use crate::gates::poseidon2_mds::{
    mds_gate_residual, mds_gate_residual_base, wire_blocks_algebra, wire_blocks_base,
};
use crate::hash::embedding::{embed_state, lemma_mds_layer_field_embeds};
use crate::hash::mds_matrix::{
    algebra_lane, dot12, ext_lane, lemma_dot12_additive, lemma_dot12_congruent, lemma_dot12_scaled,
    mds_layer_field_spec, mds_layer_spec, mds_matrix_row,
};
use vstd::prelude::*;

verus! {

/// The sum of two rows of field elements, wire by wire.
pub open spec fn row_add(x: Seq<int>, y: Seq<int>) -> Seq<int> {
    Seq::new(x.len(), |n: int| field_add(x[n], y[n]))
}

/// A row of field elements scaled by a number, wire by wire.
pub open spec fn row_scale(c: int, x: Seq<int>) -> Seq<int> {
    Seq::new(x.len(), |n: int| field_mul(c, x[n]))
}

/// Coefficient `k` of the twelve input lanes of a row.
spec fn input_lane(wires: Seq<int>, d: nat, k: int) -> Seq<int> {
    ext_lane(wire_blocks_base(wires, 0, d), k)
}

/// Where the wire of lane `j` and coefficient `k` is.
proof fn lemma_wire_index(j: int, k: int, d: int)
    requires
        0 <= j < 12,
        0 <= k < d,
    ensures
        0 <= j * d + k < 12 * d,
{
    assert(0 <= j * d + k < 12 * d) by (nonlinear_arith)
        requires
            0 <= j < 12,
            0 <= k < d,
    ;
}

/// The residual of a constraint stands for the output wire minus the row
/// of the matrix times the input lanes.
proof fn lemma_residual_congruent(wires: Seq<int>, d: nat, i: int, k: int)
    requires
        0 <= i < 12,
        0 <= k < d,
    ensures
        congruent(
            mds_gate_residual_base(wires, d, i, k),
            wires[12 * d + i * d + k] - dot12(mds_matrix_row(i), input_lane(wires, d, k)),
        ),
        0 <= mds_gate_residual_base(wires, d, i, k) < ORDER,
{
    let lane = input_lane(wires, d, k);
    let mixed = mds_layer_field_spec(wire_blocks_base(wires, 0, d), d)[i][k];
    assert(mixed == dot12(mds_matrix_row(i), lane) % (ORDER as int));
    lemma_remainder_congruent(mixed, dot12(mds_matrix_row(i), lane));
    lemma_congruent_reflexive(wires[12 * d + i * d + k]);
    lemma_field_sub_congruent(
        wires[12 * d + i * d + k],
        mixed,
        wires[12 * d + i * d + k],
        dot12(mds_matrix_row(i), lane),
    );
}

/// The residuals of the constraints are additive: on the sum of two rows
/// each is the sum of what it is on the rows.
pub proof fn lemma_mds_gate_residual_additive(x: Seq<int>, y: Seq<int>, d: nat, i: int, k: int)
    requires
        x.len() == y.len(),
        x.len() >= 24 * d,
        0 <= i < 12,
        0 <= k < d,
    ensures
        mds_gate_residual_base(row_add(x, y), d, i, k) == field_add(
            mds_gate_residual_base(x, d, i, k),
            mds_gate_residual_base(y, d, i, k),
        ),
{
    let both = row_add(x, y);
    let row = mds_matrix_row(i);
    let n = 12 * d + i * d + k;
    let lane_x = input_lane(x, d, k);
    let lane_y = input_lane(y, d, k);
    let lane_both = input_lane(both, d, k);
    let lane_sum = Seq::new(12, |j: int| lane_x[j] + lane_y[j]);
    lemma_wire_index(i, k, d as int);
    assert forall|j: int| 0 <= j < 12 implies lane_both[j] % (ORDER as int) == lane_sum[j] % (
    ORDER as int) by {
        lemma_wire_index(j, k, d as int);
        assert(lane_both[j] == field_add(x[j * d + k], y[j * d + k]));
    }
    lemma_dot12_congruent(row, lane_both, lane_sum);
    lemma_dot12_additive(row, lane_x, lane_y, lane_sum);
    lemma_remainder_congruent(dot12(row, lane_both), dot12(row, lane_x) + dot12(row, lane_y));
    lemma_residual_congruent(x, d, i, k);
    lemma_residual_congruent(y, d, i, k);
    lemma_residual_congruent(both, d, i, k);
    let rx = mds_gate_residual_base(x, d, i, k);
    let ry = mds_gate_residual_base(y, d, i, k);
    let total = (x[n] - dot12(row, lane_x)) + (y[n] - dot12(row, lane_y));
    lemma_field_add_congruent(rx, ry, x[n] - dot12(row, lane_x), y[n] - dot12(row, lane_y));
    lemma_congruent_remainder(field_add(rx, ry), total);
    // On the sum of the rows: the output wire stands for the sum of the
    // output wires, and the mixed inputs for the sum of the mixed inputs.
    let mixed = mds_layer_field_spec(wire_blocks_base(both, 0, d), d)[i][k];
    assert(mixed == dot12(row, lane_both) % (ORDER as int));
    lemma_remainder_congruent(mixed, dot12(row, lane_x) + dot12(row, lane_y));
    assert(both[n] == field_add(x[n], y[n]));
    lemma_congruent_reflexive(x[n]);
    lemma_congruent_reflexive(y[n]);
    lemma_field_add_congruent(x[n], y[n], x[n], y[n]);
    lemma_field_sub_congruent(
        both[n],
        mixed,
        x[n] + y[n],
        dot12(row, lane_x) + dot12(row, lane_y),
    );
    assert(x[n] + y[n] - (dot12(row, lane_x) + dot12(row, lane_y)) == total);
    lemma_congruent_remainder(mds_gate_residual_base(both, d, i, k), total);
}

/// The residuals of the constraints are homogeneous: on a row scaled by a
/// number each is what it is on the row, scaled by the number.
pub proof fn lemma_mds_gate_residual_homogeneous(c: int, x: Seq<int>, d: nat, i: int, k: int)
    requires
        x.len() >= 24 * d,
        0 <= i < 12,
        0 <= k < d,
    ensures
        mds_gate_residual_base(row_scale(c, x), d, i, k) == field_mul(
            c,
            mds_gate_residual_base(x, d, i, k),
        ),
{
    let scaled = row_scale(c, x);
    let row = mds_matrix_row(i);
    let n = 12 * d + i * d + k;
    let lane_x = input_lane(x, d, k);
    let lane_scaled = input_lane(scaled, d, k);
    let lane_product = Seq::new(12, |j: int| c * lane_x[j]);
    lemma_wire_index(i, k, d as int);
    assert forall|j: int| 0 <= j < 12 implies lane_scaled[j] % (ORDER as int) == lane_product[j]
        % (ORDER as int) by {
        lemma_wire_index(j, k, d as int);
        assert(lane_scaled[j] == field_mul(c, x[j * d + k]));
    }
    lemma_dot12_congruent(row, lane_scaled, lane_product);
    lemma_dot12_scaled(row, c, lane_x, lane_product);
    let ax = dot12(row, lane_x);
    lemma_residual_congruent(x, d, i, k);
    let rx = mds_gate_residual_base(x, d, i, k);
    lemma_field_scale_congruent(c, rx, x[n] - ax);
    assert(c * (x[n] - ax) == c * x[n] - c * ax) by (nonlinear_arith);
    lemma_congruent_remainder(field_mul(c, rx), c * x[n] - c * ax);
    let mixed = mds_layer_field_spec(wire_blocks_base(scaled, 0, d), d)[i][k];
    assert(mixed == dot12(row, lane_scaled) % (ORDER as int));
    lemma_remainder_congruent(mixed, c * ax);
    assert(scaled[n] == field_mul(c, x[n]));
    lemma_congruent_reflexive(x[n]);
    lemma_field_scale_congruent(c, x[n], x[n]);
    lemma_field_sub_congruent(scaled[n], mixed, c * x[n], c * ax);
    lemma_congruent_remainder(mds_gate_residual_base(scaled, d, i, k), c * x[n] - c * ax);
}

/// A row of field elements as a row of elements of the extension of
/// degree `d`.
pub open spec fn embed_row(wires: Seq<int>, d: nat) -> Seq<Seq<int>> {
    Seq::new(wires.len(), |n: int| ext_embed(wires[n], d))
}

/// The three ways to evaluate the constraints agree on field elements: on
/// a row of field elements taken as elements of the extension, each
/// residual is the residual on the field elements, embedded. (In a
/// circuit the residuals are those on the elements of the extension, by
/// the contract of the evaluation in a circuit.)
pub proof fn lemma_mds_gate_residual_embeds(wires: Seq<int>, d: nat, i: int, a: int)
    requires
        wires.len() >= 24 * d,
        0 <= i < 12,
        0 <= a < d,
    ensures
        mds_gate_residual(embed_row(wires, d), d, i, a) == ext_embed(
            mds_gate_residual_base(wires, d, i, a),
            d,
        ),
{
    let embedded = embed_row(wires, d);
    let lane = input_lane(wires, d, a);
    let lanes = algebra_lane(wire_blocks_algebra(embedded, 0, d), a);
    lemma_wire_index(i, a, d as int);
    assert forall|j: int| 0 <= j < 12 implies #[trigger] lanes[j] == embed_state(lane, d)[j] by {
        lemma_wire_index(j, a, d as int);
        assert(lanes[j] == embedded[j * d + a]);
        assert(lane[j] == wires[j * d + a]);
    }
    assert(lanes =~= embed_state(lane, d));
    lemma_mds_layer_field_embeds(lane, d);
    let mixed = mds_layer_spec(lane)[i];
    assert(mds_layer_field_spec(lanes, d)[i] == ext_embed(mixed, d));
    assert(mds_layer_field_spec(wire_blocks_base(wires, 0, d), d)[i][a] == mixed);
    lemma_ext_embed_homomorphic(wires[12 * d + i * d + a], mixed, d);
}

} // verus!
