//! The layers on elements of an extension agree with the layers on field
//! elements: on embedded field elements they give the embedded results.

use crate::field::extension::{ext_embed, lemma_ext_embed_homomorphic, lemma_mul_zero};
use crate::field::types::field_mul;
use crate::hash::mds_matrix::{
    dot12, ext_lane, mds_layer_field_spec, mds_layer_spec, mds_matrix_row,
};
use crate::hash::partial_matrix::{
    mds_partial_layer_field_spec, mds_partial_layer_spec, partial_matrix_row,
};
use crate::hash::poseidon2_spec::{
    constant_layer_field_spec, constant_layer_spec, ext_sbox_spec, lemma_sbox_steps, round_constant,
    sbox_layer_field_spec, sbox_layer_spec, sbox_spec,
};
use vstd::prelude::*;

verus! {

/// A state of field elements as a state of elements of the extension of
/// degree `d`.
pub open spec fn embed_state(state: Seq<int>, d: nat) -> Seq<Seq<int>> {
    Seq::new(12, |i: int| ext_embed(state[i], d))
}

/// A row times the state of zeros is zero.
proof fn lemma_dot12_zero(row: Seq<int>, zeros: Seq<int>)
    requires
        forall|j: int| 0 <= j < 12 ==> zeros[j] == 0,
    ensures
        dot12(row, zeros) == 0,
{
    lemma_mul_zero(row[0], zeros[0]);
    lemma_mul_zero(row[1], zeros[1]);
    lemma_mul_zero(row[2], zeros[2]);
    lemma_mul_zero(row[3], zeros[3]);
    lemma_mul_zero(row[4], zeros[4]);
    lemma_mul_zero(row[5], zeros[5]);
    lemma_mul_zero(row[6], zeros[6]);
    lemma_mul_zero(row[7], zeros[7]);
    lemma_mul_zero(row[8], zeros[8]);
    lemma_mul_zero(row[9], zeros[9]);
    lemma_mul_zero(row[10], zeros[10]);
    lemma_mul_zero(row[11], zeros[11]);
}

/// The full linear layer on embedded field elements is the embedded full
/// linear layer on the field elements.
pub proof fn lemma_mds_layer_field_embeds(state: Seq<int>, d: nat)
    requires
        state.len() == 12,
    ensures
        mds_layer_field_spec(embed_state(state, d), d) == embed_state(mds_layer_spec(state), d),
{
    let embedded = embed_state(state, d);
    assert forall|i: int, k: int| 0 <= i < 12 && 0 <= k < d implies mds_layer_field_spec(
        embedded,
        d,
    )[i][k] == embed_state(mds_layer_spec(state), d)[i][k] by {
        let lane = ext_lane(embedded, k);
        if k == 0 {
            assert(lane =~= state);
        } else {
            lemma_dot12_zero(mds_matrix_row(i), lane);
        }
    }
    assert forall|i: int| 0 <= i < 12 implies mds_layer_field_spec(embedded, d)[i] == embed_state(
        mds_layer_spec(state),
        d,
    )[i] by {
        assert(mds_layer_field_spec(embedded, d)[i] =~= embed_state(mds_layer_spec(state), d)[i]);
    }
    assert(mds_layer_field_spec(embedded, d) =~= embed_state(mds_layer_spec(state), d));
}

/// The partial-round linear layer on embedded field elements is the
/// embedded partial-round linear layer on the field elements.
pub proof fn lemma_mds_partial_layer_field_embeds(diag: Seq<int>, state: Seq<int>, d: nat)
    requires
        state.len() == 12,
    ensures
        mds_partial_layer_field_spec(diag, embed_state(state, d), d) == embed_state(
            mds_partial_layer_spec(diag, state),
            d,
        ),
{
    let embedded = embed_state(state, d);
    assert forall|i: int, k: int| 0 <= i < 12 && 0 <= k < d implies mds_partial_layer_field_spec(
        diag,
        embedded,
        d,
    )[i][k] == embed_state(mds_partial_layer_spec(diag, state), d)[i][k] by {
        let lane = ext_lane(embedded, k);
        if k == 0 {
            assert(lane =~= state);
        } else {
            lemma_dot12_zero(partial_matrix_row(diag, i), lane);
        }
    }
    assert forall|i: int| 0 <= i < 12 implies mds_partial_layer_field_spec(diag, embedded, d)[i]
        == embed_state(mds_partial_layer_spec(diag, state), d)[i] by {
        assert(mds_partial_layer_field_spec(diag, embedded, d)[i] =~= embed_state(
            mds_partial_layer_spec(diag, state),
            d,
        )[i]);
    }
    assert(mds_partial_layer_field_spec(diag, embedded, d) =~= embed_state(
        mds_partial_layer_spec(diag, state),
        d,
    ));
}

/// The constant layer on embedded field elements is the embedded constant
/// layer on the field elements.
pub proof fn lemma_constant_layer_field_embeds(state: Seq<int>, round: int, d: nat)
    ensures
        constant_layer_field_spec(embed_state(state, d), round, d) == embed_state(
            constant_layer_spec(state, round),
            d,
        ),
{
    let embedded = embed_state(state, d);
    assert forall|i: int| 0 <= i < 12 implies constant_layer_field_spec(embedded, round, d)[i]
        == embed_state(constant_layer_spec(state, round), d)[i] by {
        lemma_ext_embed_homomorphic(state[i], round_constant(round, i), d);
    }
    assert(constant_layer_field_spec(embedded, round, d) =~= embed_state(
        constant_layer_spec(state, round),
        d,
    ));
}

/// The S-box on an embedded field element is the embedded S-box of the
/// field element.
pub proof fn lemma_ext_sbox_embeds(x: int, d: nat)
    ensures
        ext_sbox_spec(ext_embed(x, d)) == ext_embed(sbox_spec(x), d),
{
    let x2 = field_mul(x, x);
    let x4 = field_mul(x2, x2);
    let x3 = field_mul(x, x2);
    lemma_ext_embed_homomorphic(x, x, d);
    lemma_ext_embed_homomorphic(x2, x2, d);
    lemma_ext_embed_homomorphic(x, x2, d);
    lemma_ext_embed_homomorphic(x3, x4, d);
    lemma_sbox_steps(x);
}

/// The S-box layer on embedded field elements is the embedded S-box layer
/// on the field elements.
pub proof fn lemma_sbox_layer_field_embeds(state: Seq<int>, d: nat)
    ensures
        sbox_layer_field_spec(embed_state(state, d)) == embed_state(sbox_layer_spec(state), d),
{
    let embedded = embed_state(state, d);
    assert forall|i: int| 0 <= i < 12 implies sbox_layer_field_spec(embedded)[i] == embed_state(
        sbox_layer_spec(state),
        d,
    )[i] by {
        lemma_ext_sbox_embeds(state[i], d);
    }
    assert(sbox_layer_field_spec(embedded) =~= embed_state(sbox_layer_spec(state), d));
}

} // verus!
