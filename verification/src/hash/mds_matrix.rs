//! The full linear layer of the permutation: the product with a 12x12
//! matrix, and the cheap form that computes it.

use crate::field::extension::{
    ext_add, ext_embed, ext_mul, ext_scale, lemma_ext_add_commutative, lemma_ext_add_twice,
    lemma_ext_add_zero_left, lemma_ext_mul_embed_left, lemma_ext_mul_embed_right,
};
use crate::field::types::{
    congruent, field_add, field_mul, lemma_add_congruent, lemma_congruent_reflexive,
    lemma_congruent_remainder, lemma_field_add_congruent, lemma_field_scale_congruent,
    lemma_mul_congruent, ORDER,
};
use vstd::prelude::*;

verus! {

/// The sum of the products of two rows of twelve numbers.
pub open spec fn dot12(a: Seq<int>, b: Seq<int>) -> int {
    a[0] * b[0] + a[1] * b[1] + a[2] * b[2] + a[3] * b[3] + a[4] * b[4] + a[5] * b[5] + a[6]
        * b[6] + a[7] * b[7] + a[8] * b[8] + a[9] * b[9] + a[10] * b[10] + a[11] * b[11]
}

/// Entry `(i, j)` of the 4x4 matrix that mixes four neighbouring lanes.
pub open spec fn mds_block_entry(i: int, j: int) -> int {
    if i == 0 {
        if j == 0 { 5 } else if j == 1 { 7 } else if j == 2 { 1 } else { 3 }
    } else if i == 1 {
        if j == 0 { 4 } else if j == 1 { 6 } else if j == 2 { 1 } else { 1 }
    } else if i == 2 {
        if j == 0 { 1 } else if j == 1 { 3 } else if j == 2 { 5 } else { 7 }
    } else {
        if j == 0 { 1 } else if j == 1 { 1 } else if j == 2 { 4 } else { 6 }
    }
}

/// Entry `(i, j)` of the 12x12 matrix of the full linear layer: three by
/// three blocks, each the 4x4 matrix, doubled on the diagonal.
pub open spec fn mds_matrix_entry(i: int, j: int) -> int {
    if i / 4 == j / 4 {
        2 * mds_block_entry(i % 4, j % 4)
    } else {
        mds_block_entry(i % 4, j % 4)
    }
}

/// Row `i` of the matrix of the full linear layer.
pub open spec fn mds_matrix_row(i: int) -> Seq<int> {
    Seq::new(12, |j: int| mds_matrix_entry(i, j))
}

/// The full linear layer: the state multiplied by the 12x12 matrix.
pub open spec fn mds_layer_spec(state: Seq<int>) -> Seq<int> {
    Seq::new(12, |i: int| dot12(mds_matrix_row(i), state) % (ORDER as int))
}

/// Row `k` of the 4x4 matrix applied to four numbers.
pub open spec fn mds_block_row(k: int, a: int, b: int, c: int, d: int) -> int {
    if k == 0 {
        5 * a + 7 * b + c + 3 * d
    } else if k == 1 {
        4 * a + 6 * b + c + d
    } else if k == 2 {
        a + 3 * b + 5 * c + 7 * d
    } else {
        a + b + 4 * c + 6 * d
    }
}

/// Row `k` of the 4x4 matrix applied to the four lanes of group `g`.
pub open spec fn mds_group_mix(state: Seq<int>, g: int, k: int) -> int {
    mds_block_row(k, state[4 * g], state[4 * g + 1], state[4 * g + 2], state[4 * g + 3])
}

/// The cheap form of the full linear layer, before reduction: the 4x4
/// matrix on the lane's own group, plus the sum over the three groups.
pub open spec fn mds_two_stage(state: Seq<int>, i: int) -> int {
    mds_group_mix(state, i / 4, i % 4) + mds_group_mix(state, 0, i % 4) + mds_group_mix(
        state,
        1,
        i % 4,
    ) + mds_group_mix(state, 2, i % 4)
}

/// The 4x4 matrix on four 64-bit numbers stays below `2^68`.
pub(crate) proof fn lemma_group_mix_bound(state: Seq<int>, g: int, k: int)
    requires
        0 <= g < 3,
        0 <= k < 4,
        forall|j: int| 0 <= j < 12 ==> 0 <= #[trigger] state[j] <= 0xFFFF_FFFF_FFFF_FFFF,
    ensures
        0 <= mds_group_mix(state, g, k) <= 16 * 0xFFFF_FFFF_FFFF_FFFF,
{
    assert(0 <= state[4 * g] <= 0xFFFF_FFFF_FFFF_FFFF);
    assert(0 <= state[4 * g + 1] <= 0xFFFF_FFFF_FFFF_FFFF);
    assert(0 <= state[4 * g + 2] <= 0xFFFF_FFFF_FFFF_FFFF);
    assert(0 <= state[4 * g + 3] <= 0xFFFF_FFFF_FFFF_FFFF);
}

/// A product with a coefficient of known value.
pub(crate) proof fn lemma_scale(c: int, k: int, x: int)
    requires
        c == k,
    ensures
        c * x == k * x,
{
}

/// Row 0 of `lemma_mds_two_stage`.
proof fn lemma_mds_row_0(state: Seq<int>)
    ensures
        mds_two_stage(state, 0) == dot12(mds_matrix_row(0), state),
{
    let row = mds_matrix_row(0);
    lemma_scale(row[0], 10, state[0]);
    lemma_scale(row[1], 14, state[1]);
    lemma_scale(row[2], 2, state[2]);
    lemma_scale(row[3], 6, state[3]);
    lemma_scale(row[4], 5, state[4]);
    lemma_scale(row[5], 7, state[5]);
    lemma_scale(row[6], 1, state[6]);
    lemma_scale(row[7], 3, state[7]);
    lemma_scale(row[8], 5, state[8]);
    lemma_scale(row[9], 7, state[9]);
    lemma_scale(row[10], 1, state[10]);
    lemma_scale(row[11], 3, state[11]);
}

/// Row 1 of `lemma_mds_two_stage`.
proof fn lemma_mds_row_1(state: Seq<int>)
    ensures
        mds_two_stage(state, 1) == dot12(mds_matrix_row(1), state),
{
    let row = mds_matrix_row(1);
    lemma_scale(row[0], 8, state[0]);
    lemma_scale(row[1], 12, state[1]);
    lemma_scale(row[2], 2, state[2]);
    lemma_scale(row[3], 2, state[3]);
    lemma_scale(row[4], 4, state[4]);
    lemma_scale(row[5], 6, state[5]);
    lemma_scale(row[6], 1, state[6]);
    lemma_scale(row[7], 1, state[7]);
    lemma_scale(row[8], 4, state[8]);
    lemma_scale(row[9], 6, state[9]);
    lemma_scale(row[10], 1, state[10]);
    lemma_scale(row[11], 1, state[11]);
}

/// Row 2 of `lemma_mds_two_stage`.
proof fn lemma_mds_row_2(state: Seq<int>)
    ensures
        mds_two_stage(state, 2) == dot12(mds_matrix_row(2), state),
{
    let row = mds_matrix_row(2);
    lemma_scale(row[0], 2, state[0]);
    lemma_scale(row[1], 6, state[1]);
    lemma_scale(row[2], 10, state[2]);
    lemma_scale(row[3], 14, state[3]);
    lemma_scale(row[4], 1, state[4]);
    lemma_scale(row[5], 3, state[5]);
    lemma_scale(row[6], 5, state[6]);
    lemma_scale(row[7], 7, state[7]);
    lemma_scale(row[8], 1, state[8]);
    lemma_scale(row[9], 3, state[9]);
    lemma_scale(row[10], 5, state[10]);
    lemma_scale(row[11], 7, state[11]);
}

/// Row 3 of `lemma_mds_two_stage`.
proof fn lemma_mds_row_3(state: Seq<int>)
    ensures
        mds_two_stage(state, 3) == dot12(mds_matrix_row(3), state),
{
    let row = mds_matrix_row(3);
    lemma_scale(row[0], 2, state[0]);
    lemma_scale(row[1], 2, state[1]);
    lemma_scale(row[2], 8, state[2]);
    lemma_scale(row[3], 12, state[3]);
    lemma_scale(row[4], 1, state[4]);
    lemma_scale(row[5], 1, state[5]);
    lemma_scale(row[6], 4, state[6]);
    lemma_scale(row[7], 6, state[7]);
    lemma_scale(row[8], 1, state[8]);
    lemma_scale(row[9], 1, state[9]);
    lemma_scale(row[10], 4, state[10]);
    lemma_scale(row[11], 6, state[11]);
}

/// Row 4 of `lemma_mds_two_stage`.
proof fn lemma_mds_row_4(state: Seq<int>)
    ensures
        mds_two_stage(state, 4) == dot12(mds_matrix_row(4), state),
{
    let row = mds_matrix_row(4);
    lemma_scale(row[0], 5, state[0]);
    lemma_scale(row[1], 7, state[1]);
    lemma_scale(row[2], 1, state[2]);
    lemma_scale(row[3], 3, state[3]);
    lemma_scale(row[4], 10, state[4]);
    lemma_scale(row[5], 14, state[5]);
    lemma_scale(row[6], 2, state[6]);
    lemma_scale(row[7], 6, state[7]);
    lemma_scale(row[8], 5, state[8]);
    lemma_scale(row[9], 7, state[9]);
    lemma_scale(row[10], 1, state[10]);
    lemma_scale(row[11], 3, state[11]);
}

/// Row 5 of `lemma_mds_two_stage`.
proof fn lemma_mds_row_5(state: Seq<int>)
    ensures
        mds_two_stage(state, 5) == dot12(mds_matrix_row(5), state),
{
    let row = mds_matrix_row(5);
    lemma_scale(row[0], 4, state[0]);
    lemma_scale(row[1], 6, state[1]);
    lemma_scale(row[2], 1, state[2]);
    lemma_scale(row[3], 1, state[3]);
    lemma_scale(row[4], 8, state[4]);
    lemma_scale(row[5], 12, state[5]);
    lemma_scale(row[6], 2, state[6]);
    lemma_scale(row[7], 2, state[7]);
    lemma_scale(row[8], 4, state[8]);
    lemma_scale(row[9], 6, state[9]);
    lemma_scale(row[10], 1, state[10]);
    lemma_scale(row[11], 1, state[11]);
}

/// Row 6 of `lemma_mds_two_stage`.
proof fn lemma_mds_row_6(state: Seq<int>)
    ensures
        mds_two_stage(state, 6) == dot12(mds_matrix_row(6), state),
{
    let row = mds_matrix_row(6);
    lemma_scale(row[0], 1, state[0]);
    lemma_scale(row[1], 3, state[1]);
    lemma_scale(row[2], 5, state[2]);
    lemma_scale(row[3], 7, state[3]);
    lemma_scale(row[4], 2, state[4]);
    lemma_scale(row[5], 6, state[5]);
    lemma_scale(row[6], 10, state[6]);
    lemma_scale(row[7], 14, state[7]);
    lemma_scale(row[8], 1, state[8]);
    lemma_scale(row[9], 3, state[9]);
    lemma_scale(row[10], 5, state[10]);
    lemma_scale(row[11], 7, state[11]);
}

/// Row 7 of `lemma_mds_two_stage`.
proof fn lemma_mds_row_7(state: Seq<int>)
    ensures
        mds_two_stage(state, 7) == dot12(mds_matrix_row(7), state),
{
    let row = mds_matrix_row(7);
    lemma_scale(row[0], 1, state[0]);
    lemma_scale(row[1], 1, state[1]);
    lemma_scale(row[2], 4, state[2]);
    lemma_scale(row[3], 6, state[3]);
    lemma_scale(row[4], 2, state[4]);
    lemma_scale(row[5], 2, state[5]);
    lemma_scale(row[6], 8, state[6]);
    lemma_scale(row[7], 12, state[7]);
    lemma_scale(row[8], 1, state[8]);
    lemma_scale(row[9], 1, state[9]);
    lemma_scale(row[10], 4, state[10]);
    lemma_scale(row[11], 6, state[11]);
}

/// Row 8 of `lemma_mds_two_stage`.
proof fn lemma_mds_row_8(state: Seq<int>)
    ensures
        mds_two_stage(state, 8) == dot12(mds_matrix_row(8), state),
{
    let row = mds_matrix_row(8);
    lemma_scale(row[0], 5, state[0]);
    lemma_scale(row[1], 7, state[1]);
    lemma_scale(row[2], 1, state[2]);
    lemma_scale(row[3], 3, state[3]);
    lemma_scale(row[4], 5, state[4]);
    lemma_scale(row[5], 7, state[5]);
    lemma_scale(row[6], 1, state[6]);
    lemma_scale(row[7], 3, state[7]);
    lemma_scale(row[8], 10, state[8]);
    lemma_scale(row[9], 14, state[9]);
    lemma_scale(row[10], 2, state[10]);
    lemma_scale(row[11], 6, state[11]);
}

/// Row 9 of `lemma_mds_two_stage`.
proof fn lemma_mds_row_9(state: Seq<int>)
    ensures
        mds_two_stage(state, 9) == dot12(mds_matrix_row(9), state),
{
    let row = mds_matrix_row(9);
    lemma_scale(row[0], 4, state[0]);
    lemma_scale(row[1], 6, state[1]);
    lemma_scale(row[2], 1, state[2]);
    lemma_scale(row[3], 1, state[3]);
    lemma_scale(row[4], 4, state[4]);
    lemma_scale(row[5], 6, state[5]);
    lemma_scale(row[6], 1, state[6]);
    lemma_scale(row[7], 1, state[7]);
    lemma_scale(row[8], 8, state[8]);
    lemma_scale(row[9], 12, state[9]);
    lemma_scale(row[10], 2, state[10]);
    lemma_scale(row[11], 2, state[11]);
}

/// Row 10 of `lemma_mds_two_stage`.
proof fn lemma_mds_row_10(state: Seq<int>)
    ensures
        mds_two_stage(state, 10) == dot12(mds_matrix_row(10), state),
{
    let row = mds_matrix_row(10);
    lemma_scale(row[0], 1, state[0]);
    lemma_scale(row[1], 3, state[1]);
    lemma_scale(row[2], 5, state[2]);
    lemma_scale(row[3], 7, state[3]);
    lemma_scale(row[4], 1, state[4]);
    lemma_scale(row[5], 3, state[5]);
    lemma_scale(row[6], 5, state[6]);
    lemma_scale(row[7], 7, state[7]);
    lemma_scale(row[8], 2, state[8]);
    lemma_scale(row[9], 6, state[9]);
    lemma_scale(row[10], 10, state[10]);
    lemma_scale(row[11], 14, state[11]);
}

/// Row 11 of `lemma_mds_two_stage`.
proof fn lemma_mds_row_11(state: Seq<int>)
    ensures
        mds_two_stage(state, 11) == dot12(mds_matrix_row(11), state),
{
    let row = mds_matrix_row(11);
    lemma_scale(row[0], 1, state[0]);
    lemma_scale(row[1], 1, state[1]);
    lemma_scale(row[2], 4, state[2]);
    lemma_scale(row[3], 6, state[3]);
    lemma_scale(row[4], 1, state[4]);
    lemma_scale(row[5], 1, state[5]);
    lemma_scale(row[6], 4, state[6]);
    lemma_scale(row[7], 6, state[7]);
    lemma_scale(row[8], 2, state[8]);
    lemma_scale(row[9], 2, state[9]);
    lemma_scale(row[10], 8, state[10]);
    lemma_scale(row[11], 12, state[11]);
}
/// The cheap form of the full linear layer is the product with the 12x12
/// matrix.
pub proof fn lemma_mds_two_stage(state: Seq<int>, i: int)
    requires
        0 <= i < 12,
    ensures
        mds_two_stage(state, i) == dot12(mds_matrix_row(i), state),
{
    if i == 0 {
        lemma_mds_row_0(state);
    } else if i == 1 {
        lemma_mds_row_1(state);
    } else if i == 2 {
        lemma_mds_row_2(state);
    } else if i == 3 {
        lemma_mds_row_3(state);
    } else if i == 4 {
        lemma_mds_row_4(state);
    } else if i == 5 {
        lemma_mds_row_5(state);
    } else if i == 6 {
        lemma_mds_row_6(state);
    } else if i == 7 {
        lemma_mds_row_7(state);
    } else if i == 8 {
        lemma_mds_row_8(state);
    } else if i == 9 {
        lemma_mds_row_9(state);
    } else if i == 10 {
        lemma_mds_row_10(state);
    } else {
        lemma_mds_row_11(state);
    }
}

/// The cheap form of the full linear layer on 64-bit representatives of
/// the lanes stays below `2^70` and reduces to the lane of the full
/// linear layer.
pub(crate) proof fn lemma_mds_lane(raw: Seq<int>, values: Seq<int>, i: int)
    requires
        0 <= i < 12,
        forall|j: int| 0 <= j < 12 ==> 0 <= #[trigger] raw[j] <= 0xFFFF_FFFF_FFFF_FFFF,
        forall|j: int| 0 <= j < 12 ==> raw[j] % (ORDER as int) == values[j] % (ORDER as int),
    ensures
        0 <= mds_two_stage(raw, i) <= 64 * 0xFFFF_FFFF_FFFF_FFFF,
        mds_two_stage(raw, i) % (ORDER as int) == mds_layer_spec(values)[i],
{
    lemma_group_mix_bound(raw, i / 4, i % 4);
    lemma_group_mix_bound(raw, 0, i % 4);
    lemma_group_mix_bound(raw, 1, i % 4);
    lemma_group_mix_bound(raw, 2, i % 4);
    lemma_mds_two_stage(raw, i);
    lemma_dot12_congruent(mds_matrix_row(i), raw, values);
}

/// A row times a state depends on the lanes modulo `ORDER` alone.
pub proof fn lemma_dot12_congruent(row: Seq<int>, a: Seq<int>, b: Seq<int>)
    requires
        forall|j: int| 0 <= j < 12 ==> a[j] % (ORDER as int) == b[j] % (ORDER as int),
    ensures
        dot12(row, a) % (ORDER as int) == dot12(row, b) % (ORDER as int),
{
    lemma_mul_congruent(row[0], a[0], row[0], b[0]);
    lemma_mul_congruent(row[1], a[1], row[1], b[1]);
    lemma_mul_congruent(row[2], a[2], row[2], b[2]);
    lemma_mul_congruent(row[3], a[3], row[3], b[3]);
    lemma_mul_congruent(row[4], a[4], row[4], b[4]);
    lemma_mul_congruent(row[5], a[5], row[5], b[5]);
    lemma_mul_congruent(row[6], a[6], row[6], b[6]);
    lemma_mul_congruent(row[7], a[7], row[7], b[7]);
    lemma_mul_congruent(row[8], a[8], row[8], b[8]);
    lemma_mul_congruent(row[9], a[9], row[9], b[9]);
    lemma_mul_congruent(row[10], a[10], row[10], b[10]);
    lemma_mul_congruent(row[11], a[11], row[11], b[11]);
    let s1 = row[0] * a[0] + row[1] * a[1];
    let r1 = row[0] * b[0] + row[1] * b[1];
    lemma_add_congruent(row[0] * a[0], row[1] * a[1], row[0] * b[0], row[1] * b[1]);
    let s2 = s1 + row[2] * a[2];
    let r2 = r1 + row[2] * b[2];
    lemma_add_congruent(s1, row[2] * a[2], r1, row[2] * b[2]);
    let s3 = s2 + row[3] * a[3];
    let r3 = r2 + row[3] * b[3];
    lemma_add_congruent(s2, row[3] * a[3], r2, row[3] * b[3]);
    let s4 = s3 + row[4] * a[4];
    let r4 = r3 + row[4] * b[4];
    lemma_add_congruent(s3, row[4] * a[4], r3, row[4] * b[4]);
    let s5 = s4 + row[5] * a[5];
    let r5 = r4 + row[5] * b[5];
    lemma_add_congruent(s4, row[5] * a[5], r4, row[5] * b[5]);
    let s6 = s5 + row[6] * a[6];
    let r6 = r5 + row[6] * b[6];
    lemma_add_congruent(s5, row[6] * a[6], r5, row[6] * b[6]);
    let s7 = s6 + row[7] * a[7];
    let r7 = r6 + row[7] * b[7];
    lemma_add_congruent(s6, row[7] * a[7], r6, row[7] * b[7]);
    let s8 = s7 + row[8] * a[8];
    let r8 = r7 + row[8] * b[8];
    lemma_add_congruent(s7, row[8] * a[8], r7, row[8] * b[8]);
    let s9 = s8 + row[9] * a[9];
    let r9 = r8 + row[9] * b[9];
    lemma_add_congruent(s8, row[9] * a[9], r8, row[9] * b[9]);
    let s10 = s9 + row[10] * a[10];
    let r10 = r9 + row[10] * b[10];
    lemma_add_congruent(s9, row[10] * a[10], r9, row[10] * b[10]);
    let s11 = s10 + row[11] * a[11];
    let r11 = r10 + row[11] * b[11];
    lemma_add_congruent(s10, row[11] * a[11], r10, row[11] * b[11]);
}

} // verus!

verus! {

/// A product with a sum.
proof fn lemma_mul_distributes(c: int, a: int, b: int)
    ensures
        c * (a + b) == c * a + c * b,
{
    assert(c * (a + b) == c * a + c * b) by (nonlinear_arith);
}

/// A row times the sum of two states is the sum of the row times each.
pub proof fn lemma_dot12_additive(row: Seq<int>, a: Seq<int>, b: Seq<int>, sum: Seq<int>)
    requires
        forall|j: int| 0 <= j < 12 ==> sum[j] == a[j] + b[j],
    ensures
        dot12(row, sum) == dot12(row, a) + dot12(row, b),
{
    lemma_mul_distributes(row[0], a[0], b[0]);
    lemma_mul_distributes(row[1], a[1], b[1]);
    lemma_mul_distributes(row[2], a[2], b[2]);
    lemma_mul_distributes(row[3], a[3], b[3]);
    lemma_mul_distributes(row[4], a[4], b[4]);
    lemma_mul_distributes(row[5], a[5], b[5]);
    lemma_mul_distributes(row[6], a[6], b[6]);
    lemma_mul_distributes(row[7], a[7], b[7]);
    lemma_mul_distributes(row[8], a[8], b[8]);
    lemma_mul_distributes(row[9], a[9], b[9]);
    lemma_mul_distributes(row[10], a[10], b[10]);
    lemma_mul_distributes(row[11], a[11], b[11]);
}

/// A product with a product.
proof fn lemma_mul_moves(r: int, c: int, a: int)
    ensures
        r * (c * a) == c * (r * a),
{
    assert(r * (c * a) == c * (r * a)) by (nonlinear_arith);
}

/// A row times a state scaled by `c` is `c` times the row times the state.
pub proof fn lemma_dot12_scaled(row: Seq<int>, c: int, a: Seq<int>, scaled: Seq<int>)
    requires
        forall|j: int| 0 <= j < 12 ==> scaled[j] == c * a[j],
    ensures
        dot12(row, scaled) == c * dot12(row, a),
{
    lemma_mul_moves(row[0], c, a[0]);
    lemma_mul_moves(row[1], c, a[1]);
    lemma_mul_moves(row[2], c, a[2]);
    lemma_mul_moves(row[3], c, a[3]);
    lemma_mul_moves(row[4], c, a[4]);
    lemma_mul_moves(row[5], c, a[5]);
    lemma_mul_moves(row[6], c, a[6]);
    lemma_mul_moves(row[7], c, a[7]);
    lemma_mul_moves(row[8], c, a[8]);
    lemma_mul_moves(row[9], c, a[9]);
    lemma_mul_moves(row[10], c, a[10]);
    lemma_mul_moves(row[11], c, a[11]);
    let t = |j: int| row[j] * a[j];
    assert(c * dot12(row, a) == c * t(0) + c * t(1) + c * t(2) + c * t(3) + c * t(4) + c * t(5)
        + c * t(6) + c * t(7) + c * t(8) + c * t(9) + c * t(10) + c * t(11)) by (nonlinear_arith)
        requires
            dot12(row, a) == t(0) + t(1) + t(2) + t(3) + t(4) + t(5) + t(6) + t(7) + t(8) + t(9)
                + t(10) + t(11),
    ;
}

/// Row `k` of the 4x4 matrix on four field elements, computed with seven
/// additions and four scalings, each reduced.
pub open spec fn mds_block_reduced(k: int, a: int, b: int, c: int, d: int) -> int {
    let t0 = field_add(a, b);
    let t1 = field_add(c, d);
    let t2 = field_add(t1, field_mul(2, b));
    let t3 = field_add(t0, field_mul(2, d));
    let t4 = field_add(t3, field_mul(4, t1));
    let t5 = field_add(t2, field_mul(4, t0));
    if k == 0 {
        field_add(t3, t5)
    } else if k == 1 {
        t5
    } else if k == 2 {
        field_add(t2, t4)
    } else {
        t4
    }
}

/// `mds_block_reduced` on the four lanes of group `g`.
pub open spec fn mds_group_reduced(state: Seq<int>, g: int, k: int) -> int {
    mds_block_reduced(k, state[4 * g], state[4 * g + 1], state[4 * g + 2], state[4 * g + 3])
}

/// The cheap form of the full linear layer on field elements, reduced at
/// every step: the 4x4 matrix on the lane's own group, plus the sum over
/// the three groups.
pub open spec fn mds_two_stage_reduced(state: Seq<int>, i: int) -> int {
    let k = i % 4;
    let stored = field_add(
        field_add(mds_group_reduced(state, 0, k), mds_group_reduced(state, 1, k)),
        mds_group_reduced(state, 2, k),
    );
    field_add(mds_group_reduced(state, i / 4, k), stored)
}

/// The 4x4 matrix computed on field elements stands for the 4x4 matrix on
/// the integers.
pub proof fn lemma_block_reduced(k: int, a: int, b: int, c: int, d: int)
    requires
        0 <= k < 4,
    ensures
        congruent(mds_block_reduced(k, a, b, c, d), mds_block_row(k, a, b, c, d)),
{
    let t0 = field_add(a, b);
    let t1 = field_add(c, d);
    let t2 = field_add(t1, field_mul(2, b));
    let t3 = field_add(t0, field_mul(2, d));
    let t4 = field_add(t3, field_mul(4, t1));
    let t5 = field_add(t2, field_mul(4, t0));
    lemma_congruent_reflexive(a);
    lemma_congruent_reflexive(b);
    lemma_congruent_reflexive(c);
    lemma_congruent_reflexive(d);
    lemma_field_add_congruent(a, b, a, b);
    lemma_field_add_congruent(c, d, c, d);
    lemma_field_scale_congruent(2, b, b);
    lemma_field_scale_congruent(2, d, d);
    lemma_field_add_congruent(t1, field_mul(2, b), c + d, 2 * b);
    lemma_field_add_congruent(t0, field_mul(2, d), a + b, 2 * d);
    lemma_field_scale_congruent(4, t1, c + d);
    lemma_field_scale_congruent(4, t0, a + b);
    lemma_field_add_congruent(t3, field_mul(4, t1), a + b + 2 * d, 4 * (c + d));
    lemma_field_add_congruent(t2, field_mul(4, t0), c + d + 2 * b, 4 * (a + b));
    if k == 0 {
        lemma_field_add_congruent(t3, t5, a + b + 2 * d, c + d + 2 * b + 4 * (a + b));
        assert(a + b + 2 * d + (c + d + 2 * b + 4 * (a + b)) == mds_block_row(0, a, b, c, d));
    } else if k == 1 {
        assert(c + d + 2 * b + 4 * (a + b) == mds_block_row(1, a, b, c, d));
    } else if k == 2 {
        lemma_field_add_congruent(t2, t4, c + d + 2 * b, a + b + 2 * d + 4 * (c + d));
        assert(c + d + 2 * b + (a + b + 2 * d + 4 * (c + d)) == mds_block_row(2, a, b, c, d));
    } else {
        assert(a + b + 2 * d + 4 * (c + d) == mds_block_row(3, a, b, c, d));
    }
}

/// The reduced cheap form of the full linear layer is the product with
/// the 12x12 matrix.
pub proof fn lemma_mds_two_stage_reduced(state: Seq<int>, i: int)
    requires
        0 <= i < 12,
    ensures
        mds_two_stage_reduced(state, i) == mds_layer_spec(state)[i],
{
    let k = i % 4;
    let r0 = mds_group_reduced(state, 0, k);
    let r1 = mds_group_reduced(state, 1, k);
    let r2 = mds_group_reduced(state, 2, k);
    let m0 = mds_group_mix(state, 0, k);
    let m1 = mds_group_mix(state, 1, k);
    let m2 = mds_group_mix(state, 2, k);
    lemma_block_reduced(k, state[0], state[1], state[2], state[3]);
    lemma_block_reduced(k, state[4], state[5], state[6], state[7]);
    lemma_block_reduced(k, state[8], state[9], state[10], state[11]);
    lemma_field_add_congruent(r0, r1, m0, m1);
    lemma_field_add_congruent(field_add(r0, r1), r2, m0 + m1, m2);
    let stored = field_add(field_add(r0, r1), r2);
    let own = mds_group_reduced(state, i / 4, k);
    let own_mix = mds_group_mix(state, i / 4, k);
    if i / 4 == 0 {
        assert(own == r0 && own_mix == m0);
    } else if i / 4 == 1 {
        assert(own == r1 && own_mix == m1);
    } else {
        assert(own == r2 && own_mix == m2);
    }
    lemma_field_add_congruent(own, stored, own_mix, m0 + m1 + m2);
    assert(own_mix + (m0 + m1 + m2) == mds_two_stage(state, i));
    lemma_congruent_remainder(field_add(own, stored), mds_two_stage(state, i));
    lemma_mds_two_stage(state, i);
}

/// A state of twelve elements of an extension has twelve lanes of `d`
/// coefficients each.
pub open spec fn ext_state_wf(state: Seq<Seq<int>>, d: nat) -> bool {
    &&& state.len() == 12
    &&& forall|j: int| 0 <= j < 12 ==> (#[trigger] state[j]).len() == d
}

/// Coefficient `k` of each of the twelve lanes.
pub open spec fn ext_lane(state: Seq<Seq<int>>, k: int) -> Seq<int> {
    Seq::new(12, |j: int| state[j][k])
}

/// The full linear layer on elements of an extension of degree `d`: the
/// full linear layer on each coefficient.
pub open spec fn mds_layer_field_spec(state: Seq<Seq<int>>, d: nat) -> Seq<Seq<int>> {
    Seq::new(12, |i: int| Seq::new(d, |k: int| mds_layer_spec(ext_lane(state, k))[i]))
}

/// Row `k` of the 4x4 matrix on four elements of an extension, computed
/// with seven additions and four scalings.
pub open spec fn mds_block_ext(k: int, a: Seq<int>, b: Seq<int>, c: Seq<int>, d: Seq<int>) -> Seq<
    int,
> {
    let t0 = ext_add(a, b);
    let t1 = ext_add(c, d);
    let t2 = ext_add(t1, ext_scale(2, b));
    let t3 = ext_add(t0, ext_scale(2, d));
    let t4 = ext_add(t3, ext_scale(4, t1));
    let t5 = ext_add(t2, ext_scale(4, t0));
    if k == 0 {
        ext_add(t3, t5)
    } else if k == 1 {
        t5
    } else if k == 2 {
        ext_add(t2, t4)
    } else {
        t4
    }
}

/// `mds_block_ext` on the four lanes of group `g`.
pub open spec fn mds_group_ext(state: Seq<Seq<int>>, g: int, k: int) -> Seq<int> {
    mds_block_ext(k, state[4 * g], state[4 * g + 1], state[4 * g + 2], state[4 * g + 3])
}

/// What the second stage of the cheap form adds to every lane at position
/// `k` of its group: the sum over the three groups.
pub open spec fn mds_stored_ext(state: Seq<Seq<int>>, k: int) -> Seq<int> {
    ext_add(
        ext_add(mds_group_ext(state, 0, k), mds_group_ext(state, 1, k)),
        mds_group_ext(state, 2, k),
    )
}

/// The cheap form of the full linear layer on elements of an extension.
pub open spec fn mds_two_stage_ext(state: Seq<Seq<int>>, i: int) -> Seq<int> {
    ext_add(mds_group_ext(state, i / 4, i % 4), mds_stored_ext(state, i % 4))
}

/// The cheap form of the full linear layer on elements of an extension is
/// the full linear layer on each coefficient.
pub proof fn lemma_mds_two_stage_ext(state: Seq<Seq<int>>, d: nat, i: int)
    requires
        ext_state_wf(state, d),
        0 <= i < 12,
    ensures
        mds_two_stage_ext(state, i) == mds_layer_field_spec(state, d)[i],
{
    assert forall|k: int| 0 <= k < d implies mds_two_stage_ext(state, i)[k] == mds_layer_spec(
        ext_lane(state, k),
    )[i] by {
        let lane = ext_lane(state, k);
        let p = i % 4;
        assert(mds_group_ext(state, 0, p)[k] == mds_group_reduced(lane, 0, p));
        assert(mds_group_ext(state, 1, p)[k] == mds_group_reduced(lane, 1, p));
        assert(mds_group_ext(state, 2, p)[k] == mds_group_reduced(lane, 2, p));
        assert(mds_group_ext(state, i / 4, p)[k] == mds_group_reduced(lane, i / 4, p));
        assert(mds_two_stage_ext(state, i)[k] == mds_two_stage_reduced(lane, i));
        lemma_mds_two_stage_reduced(lane, i);
    }
    assert(mds_two_stage_ext(state, i) =~= mds_layer_field_spec(state, d)[i]);
}

/// The 4x4 matrix on four elements of an extension with every scaling
/// written as the left summand.
pub proof fn lemma_mds_block_ext_scaled_left(
    a: Seq<int>,
    b: Seq<int>,
    c: Seq<int>,
    d: Seq<int>,
)
    requires
        a.len() == b.len(),
        a.len() == c.len(),
        a.len() == d.len(),
    ensures
        ({
            let t0 = ext_add(a, b);
            let t1 = ext_add(c, d);
            let t2 = ext_add(ext_scale(2, b), t1);
            let t3 = ext_add(ext_scale(2, d), t0);
            let t4 = ext_add(ext_scale(4, t1), t3);
            let t5 = ext_add(ext_scale(4, t0), t2);
            &&& ext_add(t3, t5) == mds_block_ext(0, a, b, c, d)
            &&& t5 == mds_block_ext(1, a, b, c, d)
            &&& ext_add(t2, t4) == mds_block_ext(2, a, b, c, d)
            &&& t4 == mds_block_ext(3, a, b, c, d)
        }),
{
    let t0 = ext_add(a, b);
    let t1 = ext_add(c, d);
    lemma_ext_add_commutative(ext_scale(2, b), t1);
    lemma_ext_add_commutative(ext_scale(2, d), t0);
    let t2 = ext_add(t1, ext_scale(2, b));
    let t3 = ext_add(t0, ext_scale(2, d));
    lemma_ext_add_commutative(ext_scale(4, t1), t3);
    lemma_ext_add_commutative(ext_scale(4, t0), t2);
}

/// The sum over the three groups, added to zero one after the other, is
/// what the second stage of the cheap form adds.
pub proof fn lemma_mds_stored_ext_from_zero(state: Seq<Seq<int>>, d: nat, k: int)
    requires
        ext_state_wf(state, d),
        0 <= k < 4,
    ensures
        ext_add(
            ext_add(ext_add(ext_embed(0, d), mds_group_ext(state, 0, k)), mds_group_ext(state, 1, k)),
            mds_group_ext(state, 2, k),
        ) == mds_stored_ext(state, k),
{
    lemma_ext_add_zero_left(mds_group_ext(state, 0, k), mds_group_ext(state, 1, k));
}

/// The 4x4 matrix on four elements of an extension with every doubling
/// written as two additions and every scaling as a product with the
/// number 4 of the extension.
pub proof fn lemma_mds_block_ext_added_twice(a: Seq<int>, b: Seq<int>, c: Seq<int>, d: Seq<int>)
    requires
        a.len() == b.len(),
        a.len() == c.len(),
        a.len() == d.len(),
    ensures
        ({
            let four = ext_embed(4, a.len());
            let t0 = ext_add(a, b);
            let t1 = ext_add(c, d);
            let t2 = ext_add(ext_add(t1, b), b);
            let t3 = ext_add(ext_add(t0, d), d);
            let t4 = ext_add(t3, ext_mul(t1, four));
            let t5 = ext_add(t2, ext_mul(t0, four));
            &&& ext_add(t3, t5) == mds_block_ext(0, a, b, c, d)
            &&& t5 == mds_block_ext(1, a, b, c, d)
            &&& ext_add(t2, t4) == mds_block_ext(2, a, b, c, d)
            &&& t4 == mds_block_ext(3, a, b, c, d)
        }),
{
    let t0 = ext_add(a, b);
    let t1 = ext_add(c, d);
    lemma_ext_add_twice(t1, b);
    lemma_ext_add_twice(t0, d);
    lemma_ext_mul_embed_right(t1, 4);
    lemma_ext_mul_embed_right(t0, 4);
}

/// Component `a` of each of the twelve lanes of a state of elements of
/// the extension algebra.
pub open spec fn algebra_lane(state: Seq<Seq<Seq<int>>>, a: int) -> Seq<Seq<int>> {
    Seq::new(12, |j: int| state[j][a])
}

/// The full linear layer on elements of the extension algebra of degree
/// `d`: the full linear layer on each component.
pub open spec fn mds_layer_algebra_spec(state: Seq<Seq<Seq<int>>>, d: nat) -> Seq<Seq<Seq<int>>> {
    Seq::new(
        12,
        |i: int| Seq::new(d, |a: int| mds_layer_field_spec(algebra_lane(state, a), d)[i]),
    )
}

/// `mds_group_ext` on each component of elements of the extension
/// algebra.
pub open spec fn mds_group_algebra(state: Seq<Seq<Seq<int>>>, g: int, k: int, d: nat) -> Seq<
    Seq<int>,
> {
    Seq::new(d, |a: int| mds_group_ext(algebra_lane(state, a), g, k))
}

/// `mds_stored_ext` on each component of elements of the extension
/// algebra.
pub open spec fn mds_stored_algebra(state: Seq<Seq<Seq<int>>>, k: int, d: nat) -> Seq<Seq<int>> {
    Seq::new(d, |a: int| mds_stored_ext(algebra_lane(state, a), k))
}

/// The 4x4 matrix on four elements of an extension with every scaling
/// written as a product with a number of the extension, as the left
/// summand.
pub proof fn lemma_mds_block_ext_product_left(a: Seq<int>, b: Seq<int>, c: Seq<int>, d: Seq<int>)
    requires
        a.len() == b.len(),
        a.len() == c.len(),
        a.len() == d.len(),
    ensures
        ({
            let two = ext_embed(2, a.len());
            let four = ext_embed(4, a.len());
            let t0 = ext_add(a, b);
            let t1 = ext_add(c, d);
            let t2 = ext_add(ext_mul(two, b), t1);
            let t3 = ext_add(ext_mul(two, d), t0);
            let t4 = ext_add(ext_mul(four, t1), t3);
            let t5 = ext_add(ext_mul(four, t0), t2);
            &&& ext_add(t3, t5) == mds_block_ext(0, a, b, c, d)
            &&& t5 == mds_block_ext(1, a, b, c, d)
            &&& ext_add(t2, t4) == mds_block_ext(2, a, b, c, d)
            &&& t4 == mds_block_ext(3, a, b, c, d)
        }),
{
    let t0 = ext_add(a, b);
    let t1 = ext_add(c, d);
    lemma_ext_mul_embed_left(2, b);
    lemma_ext_mul_embed_left(2, d);
    lemma_ext_mul_embed_left(4, t1);
    lemma_ext_mul_embed_left(4, t0);
    lemma_mds_block_ext_scaled_left(a, b, c, d);
}

} // verus!
