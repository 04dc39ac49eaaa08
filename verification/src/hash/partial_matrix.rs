//! The linear layer of a partial round: the product with the 12x12 matrix
//! of ones plus a diagonal, and the fast form that computes it.

use crate::field::extension::{ext_add, ext_scale};
use crate::field::types::{
    congruent, field_add, field_mul, lemma_add_congruent, lemma_congruent_reflexive,
    lemma_congruent_remainder, lemma_field_add_congruent, lemma_field_scale_congruent, ORDER,
};
use crate::hash::mds_matrix::{dot12, ext_lane, ext_state_wf, lemma_scale};
use vstd::prelude::*;

verus! {

/// The sum of the twelve lanes.
pub open spec fn sum12(a: Seq<int>) -> int {
    a[0] + a[1] + a[2] + a[3] + a[4] + a[5] + a[6] + a[7] + a[8] + a[9] + a[10] + a[11]
}

/// The sum of the first `n` of the twelve lanes.
pub open spec fn prefix_sum12(a: Seq<int>, n: int) -> int {
    (if n > 0 {
        a[0]
    } else {
        0
    }) + (if n > 1 {
        a[1]
    } else {
        0
    }) + (if n > 2 {
        a[2]
    } else {
        0
    }) + (if n > 3 {
        a[3]
    } else {
        0
    }) + (if n > 4 {
        a[4]
    } else {
        0
    }) + (if n > 5 {
        a[5]
    } else {
        0
    }) + (if n > 6 {
        a[6]
    } else {
        0
    }) + (if n > 7 {
        a[7]
    } else {
        0
    }) + (if n > 8 {
        a[8]
    } else {
        0
    }) + (if n > 9 {
        a[9]
    } else {
        0
    }) + (if n > 10 {
        a[10]
    } else {
        0
    }) + (if n > 11 {
        a[11]
    } else {
        0
    })
}

/// The diagonal of the partial-round matrix as integers.
pub open spec fn diag_values(diag: [u64; 12]) -> Seq<int> {
    Seq::new(12, |i: int| diag[i] as int)
}

/// Entry `(i, j)` of the 12x12 matrix of the partial-round linear layer:
/// the matrix of ones plus the diagonal matrix of `diag`.
pub open spec fn partial_matrix_entry(diag: Seq<int>, i: int, j: int) -> int {
    if i == j {
        1 + diag[i]
    } else {
        1
    }
}

/// Row `i` of the matrix of the partial-round linear layer.
pub open spec fn partial_matrix_row(diag: Seq<int>, i: int) -> Seq<int> {
    Seq::new(12, |j: int| partial_matrix_entry(diag, i, j))
}

/// The partial-round linear layer: the state multiplied by the 12x12
/// matrix of ones plus diagonal.
pub open spec fn mds_partial_layer_spec(diag: Seq<int>, state: Seq<int>) -> Seq<int> {
    Seq::new(12, |i: int| dot12(partial_matrix_row(diag, i), state) % (ORDER as int))
}

/// The fast form of the partial-round linear layer, before reduction: the
/// sum of the lanes plus the lane scaled by its diagonal entry.
pub open spec fn mds_partial_fast(diag: Seq<int>, state: Seq<int>, i: int) -> int {
    sum12(state) + diag[i] * state[i]
}

/// One term of a row of the partial-round matrix times a state.
proof fn lemma_partial_term(diag: Seq<int>, i: int, j: int, x: int)
    requires
        0 <= i < 12,
        0 <= j < 12,
    ensures
        partial_matrix_row(diag, i)[j] * x == if i == j {
            x + diag[i] * x
        } else {
            x
        },
{
    let c = partial_matrix_row(diag, i)[j];
    if i == j {
        assert(c * x == x + diag[i] * x) by (nonlinear_arith)
            requires
                c == 1 + diag[i],
        ;
    } else {
        lemma_scale(c, 1, x);
    }
}

/// The fast form of the partial-round linear layer is the product with
/// the dense 12x12 matrix, for every state and every diagonal.
pub proof fn lemma_mds_partial_fast(diag: Seq<int>, state: Seq<int>, i: int)
    requires
        0 <= i < 12,
    ensures
        mds_partial_fast(diag, state, i) == dot12(partial_matrix_row(diag, i), state),
{
    lemma_partial_term(diag, i, 0, state[0]);
    lemma_partial_term(diag, i, 1, state[1]);
    lemma_partial_term(diag, i, 2, state[2]);
    lemma_partial_term(diag, i, 3, state[3]);
    lemma_partial_term(diag, i, 4, state[4]);
    lemma_partial_term(diag, i, 5, state[5]);
    lemma_partial_term(diag, i, 6, state[6]);
    lemma_partial_term(diag, i, 7, state[7]);
    lemma_partial_term(diag, i, 8, state[8]);
    lemma_partial_term(diag, i, 9, state[9]);
    lemma_partial_term(diag, i, 10, state[10]);
    lemma_partial_term(diag, i, 11, state[11]);
}

/// The sum of the lanes depends on the lanes modulo `ORDER` alone.
pub proof fn lemma_sum12_congruent(a: Seq<int>, b: Seq<int>)
    requires
        forall|j: int| 0 <= j < 12 ==> a[j] % (ORDER as int) == b[j] % (ORDER as int),
    ensures
        sum12(a) % (ORDER as int) == sum12(b) % (ORDER as int),
{
    let s1 = a[0] + a[1];
    let r1 = b[0] + b[1];
    lemma_add_congruent(a[0], a[1], b[0], b[1]);
    let s2 = s1 + a[2];
    let r2 = r1 + b[2];
    lemma_add_congruent(s1, a[2], r1, b[2]);
    let s3 = s2 + a[3];
    let r3 = r2 + b[3];
    lemma_add_congruent(s2, a[3], r2, b[3]);
    let s4 = s3 + a[4];
    let r4 = r3 + b[4];
    lemma_add_congruent(s3, a[4], r3, b[4]);
    let s5 = s4 + a[5];
    let r5 = r4 + b[5];
    lemma_add_congruent(s4, a[5], r4, b[5]);
    let s6 = s5 + a[6];
    let r6 = r5 + b[6];
    lemma_add_congruent(s5, a[6], r5, b[6]);
    let s7 = s6 + a[7];
    let r7 = r6 + b[7];
    lemma_add_congruent(s6, a[7], r6, b[7]);
    let s8 = s7 + a[8];
    let r8 = r7 + b[8];
    lemma_add_congruent(s7, a[8], r7, b[8]);
    let s9 = s8 + a[9];
    let r9 = r8 + b[9];
    lemma_add_congruent(s8, a[9], r8, b[9]);
    let s10 = s9 + a[10];
    let r10 = r9 + b[10];
    lemma_add_congruent(s9, a[10], r9, b[10]);
    let s11 = s10 + a[11];
    let r11 = r10 + b[11];
    lemma_add_congruent(s10, a[11], r10, b[11]);
}

/// The sum of the first `n` lanes, `n` at least 1, added up from lane 0
/// on and reduced at every step.
pub open spec fn sum_reduced(state: Seq<int>, n: int) -> int
    decreases n,
{
    if n <= 1 {
        state[0]
    } else {
        field_add(sum_reduced(state, n - 1), state[n - 1])
    }
}

/// The fast form of the partial-round linear layer on field elements,
/// reduced at every step.
pub open spec fn mds_partial_fast_reduced(diag: Seq<int>, state: Seq<int>, i: int) -> int {
    field_add(sum_reduced(state, 12), field_mul(diag[i], state[i]))
}

/// The reduced sum of the first `n` lanes stands for their sum.
pub proof fn lemma_sum_reduced(state: Seq<int>, n: int)
    requires
        1 <= n <= 12,
    ensures
        congruent(sum_reduced(state, n), prefix_sum12(state, n)),
    decreases n,
{
    if n > 1 {
        lemma_sum_reduced(state, n - 1);
        lemma_congruent_reflexive(state[n - 1]);
        lemma_field_add_congruent(
            sum_reduced(state, n - 1),
            state[n - 1],
            prefix_sum12(state, n - 1),
            state[n - 1],
        );
        assert(prefix_sum12(state, n - 1) + state[n - 1] == prefix_sum12(state, n));
    } else {
        lemma_congruent_reflexive(state[0]);
    }
}

/// The reduced fast form of the partial-round linear layer is the product
/// with the dense 12x12 matrix.
pub proof fn lemma_mds_partial_fast_reduced(diag: Seq<int>, state: Seq<int>, i: int)
    requires
        0 <= i < 12,
    ensures
        mds_partial_fast_reduced(diag, state, i) == mds_partial_layer_spec(diag, state)[i],
{
    lemma_sum_reduced(state, 12);
    lemma_congruent_reflexive(state[i]);
    lemma_field_scale_congruent(diag[i], state[i], state[i]);
    assert(prefix_sum12(state, 12) == sum12(state));
    lemma_field_add_congruent(
        sum_reduced(state, 12),
        field_mul(diag[i], state[i]),
        sum12(state),
        diag[i] * state[i],
    );
    lemma_congruent_remainder(
        mds_partial_fast_reduced(diag, state, i),
        mds_partial_fast(diag, state, i),
    );
    lemma_mds_partial_fast(diag, state, i);
}

/// The partial-round linear layer on elements of an extension of degree
/// `d`: the partial-round linear layer on each coefficient.
pub open spec fn mds_partial_layer_field_spec(diag: Seq<int>, state: Seq<Seq<int>>, d: nat) -> Seq<
    Seq<int>,
> {
    Seq::new(
        12,
        |i: int| Seq::new(d, |k: int| mds_partial_layer_spec(diag, ext_lane(state, k))[i]),
    )
}

/// The sum of the first `n` lanes, `n` at least 1, of a state of elements
/// of an extension, added up from lane 0 on.
pub open spec fn ext_sum(state: Seq<Seq<int>>, n: int) -> Seq<int>
    decreases n,
{
    if n <= 1 {
        state[0]
    } else {
        ext_add(ext_sum(state, n - 1), state[n - 1])
    }
}

/// The fast form of the partial-round linear layer on elements of an
/// extension.
pub open spec fn mds_partial_fast_ext(diag: Seq<int>, state: Seq<Seq<int>>, i: int) -> Seq<int> {
    ext_add(ext_sum(state, 12), ext_scale(diag[i], state[i]))
}

/// The sum of lanes of elements of an extension is the sum on each
/// coefficient.
pub proof fn lemma_ext_sum(state: Seq<Seq<int>>, d: nat, n: int)
    requires
        ext_state_wf(state, d),
        1 <= n <= 12,
    ensures
        ext_sum(state, n).len() == d,
        forall|k: int| 0 <= k < d ==> #[trigger] ext_sum(state, n)[k] == sum_reduced(
            ext_lane(state, k),
            n,
        ),
    decreases n,
{
    if n > 1 {
        lemma_ext_sum(state, d, n - 1);
    }
}

/// The fast form of the partial-round linear layer on elements of an
/// extension is the partial-round linear layer on each coefficient.
pub proof fn lemma_mds_partial_fast_ext(diag: Seq<int>, state: Seq<Seq<int>>, d: nat, i: int)
    requires
        ext_state_wf(state, d),
        0 <= i < 12,
    ensures
        mds_partial_fast_ext(diag, state, i) == mds_partial_layer_field_spec(diag, state, d)[i],
{
    lemma_ext_sum(state, d, 12);
    assert forall|k: int| 0 <= k < d implies mds_partial_fast_ext(diag, state, i)[k]
        == mds_partial_layer_spec(diag, ext_lane(state, k))[i] by {
        let lane = ext_lane(state, k);
        assert(ext_sum(state, 12)[k] == sum_reduced(lane, 12));
        assert(mds_partial_fast_ext(diag, state, i)[k] == mds_partial_fast_reduced(diag, lane, i));
        lemma_mds_partial_fast_reduced(diag, lane, i);
    }
    assert(mds_partial_fast_ext(diag, state, i) =~= mds_partial_layer_field_spec(diag, state, d)[i]);
}

} // verus!
