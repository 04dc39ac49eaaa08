//! The constants of the permutation of width 12 over the Goldilocks field.

use crate::field::goldilocks_field::GoldilocksField;
use crate::hash::partial_matrix::diag_values;
use crate::hash::poseidon2::Poseidon;
use crate::hash::round_constants::ALL_ROUND_CONSTANTS;
use vstd::prelude::*;

verus! {

impl Poseidon for GoldilocksField {
    const MDS_MATRIX_DIAG: [u64; 12] = [
        0xcf6f77ac16722af9,
        0x3fd4c0d74672aebc,
        0x9b72bf1c1c3d08a8,
        0xe4940f84b71e4ac2,
        0x61b27b077118bc72,
        0x2efd8379b8e661e2,
        0x858edcf353df0341,
        0x2d9c20affb5c4516,
        0x5120143f0695defb,
        0x62fc898ae34a5c5b,
        0xa3d9560c99123ed2,
        0x98fd739d8e7fc933,
    ];

    const FAST_PARTIAL_ROUND_CONSTANTS: [u64; 22] = [
        0xe3ecbb6ba1e16211,
        0x70f5b3266792bbb6,
        0xe7560e690634757e,
        0xafd0202bc7eaf66e,
        0x349f4c5871f220fd,
        0x3697eb3e31529e0d,
        0x7735d5b0622d9900,
        0x5f5b58b9cf997668,
        0x645534b6548af9d9,
        0x4232d29d91a426a8,
        0xb987278aed485d35,
        0x6dabeef669bb406e,
        0x35ee78288b749d40,
        0x6dcd560f14af0fc3,
        0x71ed3dc007ea6383,
        0x8b6b51caab7f5b6f,
        0xcf2e8cc4181dbfa8,
        0xa01d3f1c306f825a,
        0xccee646a5d8ddb87,
        0x70df6f277cbaffeb,
        0x64ec0a6556b8f45c,
        0x6f68c9664fda6e37,
    ];

    proof fn lemma_constants() {
        assert(Self::FAST_PARTIAL_ROUND_CONSTANTS[0] == ALL_ROUND_CONSTANTS[48]);
        assert(Self::FAST_PARTIAL_ROUND_CONSTANTS[1] == ALL_ROUND_CONSTANTS[60]);
        assert(Self::FAST_PARTIAL_ROUND_CONSTANTS[2] == ALL_ROUND_CONSTANTS[72]);
        assert(Self::FAST_PARTIAL_ROUND_CONSTANTS[3] == ALL_ROUND_CONSTANTS[84]);
        assert(Self::FAST_PARTIAL_ROUND_CONSTANTS[4] == ALL_ROUND_CONSTANTS[96]);
        assert(Self::FAST_PARTIAL_ROUND_CONSTANTS[5] == ALL_ROUND_CONSTANTS[108]);
        assert(Self::FAST_PARTIAL_ROUND_CONSTANTS[6] == ALL_ROUND_CONSTANTS[120]);
        assert(Self::FAST_PARTIAL_ROUND_CONSTANTS[7] == ALL_ROUND_CONSTANTS[132]);
        assert(Self::FAST_PARTIAL_ROUND_CONSTANTS[8] == ALL_ROUND_CONSTANTS[144]);
        assert(Self::FAST_PARTIAL_ROUND_CONSTANTS[9] == ALL_ROUND_CONSTANTS[156]);
        assert(Self::FAST_PARTIAL_ROUND_CONSTANTS[10] == ALL_ROUND_CONSTANTS[168]);
        assert(Self::FAST_PARTIAL_ROUND_CONSTANTS[11] == ALL_ROUND_CONSTANTS[180]);
        assert(Self::FAST_PARTIAL_ROUND_CONSTANTS[12] == ALL_ROUND_CONSTANTS[192]);
        assert(Self::FAST_PARTIAL_ROUND_CONSTANTS[13] == ALL_ROUND_CONSTANTS[204]);
        assert(Self::FAST_PARTIAL_ROUND_CONSTANTS[14] == ALL_ROUND_CONSTANTS[216]);
        assert(Self::FAST_PARTIAL_ROUND_CONSTANTS[15] == ALL_ROUND_CONSTANTS[228]);
        assert(Self::FAST_PARTIAL_ROUND_CONSTANTS[16] == ALL_ROUND_CONSTANTS[240]);
        assert(Self::FAST_PARTIAL_ROUND_CONSTANTS[17] == ALL_ROUND_CONSTANTS[252]);
        assert(Self::FAST_PARTIAL_ROUND_CONSTANTS[18] == ALL_ROUND_CONSTANTS[264]);
        assert(Self::FAST_PARTIAL_ROUND_CONSTANTS[19] == ALL_ROUND_CONSTANTS[276]);
        assert(Self::FAST_PARTIAL_ROUND_CONSTANTS[20] == ALL_ROUND_CONSTANTS[288]);
        assert(Self::FAST_PARTIAL_ROUND_CONSTANTS[21] == ALL_ROUND_CONSTANTS[300]);
    }
}

/// The diagonal of the matrix of the partial-round linear layer over the
/// Goldilocks field, entry by entry.
pub proof fn lemma_goldilocks_mds_matrix_diag()
    ensures
        diag_values(<GoldilocksField as Poseidon>::MDS_MATRIX_DIAG) == seq![
            0xcf6f77ac16722af9int,
            0x3fd4c0d74672aebcint,
            0x9b72bf1c1c3d08a8int,
            0xe4940f84b71e4ac2int,
            0x61b27b077118bc72int,
            0x2efd8379b8e661e2int,
            0x858edcf353df0341int,
            0x2d9c20affb5c4516int,
            0x5120143f0695defbint,
            0x62fc898ae34a5c5bint,
            0xa3d9560c99123ed2int,
            0x98fd739d8e7fc933int,
        ],
{
    let diag = diag_values(<GoldilocksField as Poseidon>::MDS_MATRIX_DIAG);
    let values = seq![
        0xcf6f77ac16722af9int,
        0x3fd4c0d74672aebcint,
        0x9b72bf1c1c3d08a8int,
        0xe4940f84b71e4ac2int,
        0x61b27b077118bc72int,
        0x2efd8379b8e661e2int,
        0x858edcf353df0341int,
        0x2d9c20affb5c4516int,
        0x5120143f0695defbint,
        0x62fc898ae34a5c5bint,
        0xa3d9560c99123ed2int,
        0x98fd739d8e7fc933int,
    ];
    assert(diag[0] == values[0]);
    assert(diag[1] == values[1]);
    assert(diag[2] == values[2]);
    assert(diag[3] == values[3]);
    assert(diag[4] == values[4]);
    assert(diag[5] == values[5]);
    assert(diag[6] == values[6]);
    assert(diag[7] == values[7]);
    assert(diag[8] == values[8]);
    assert(diag[9] == values[9]);
    assert(diag[10] == values[10]);
    assert(diag[11] == values[11]);
    assert(diag =~= values);
}

/// The constants that the partial rounds over the Goldilocks field add to
/// lane 0, round by round.
pub proof fn lemma_goldilocks_partial_round_constants()
    ensures
        <GoldilocksField as Poseidon>::FAST_PARTIAL_ROUND_CONSTANTS@ == seq![
            0xe3ecbb6ba1e16211u64,
            0x70f5b3266792bbb6u64,
            0xe7560e690634757eu64,
            0xafd0202bc7eaf66eu64,
            0x349f4c5871f220fdu64,
            0x3697eb3e31529e0du64,
            0x7735d5b0622d9900u64,
            0x5f5b58b9cf997668u64,
            0x645534b6548af9d9u64,
            0x4232d29d91a426a8u64,
            0xb987278aed485d35u64,
            0x6dabeef669bb406eu64,
            0x35ee78288b749d40u64,
            0x6dcd560f14af0fc3u64,
            0x71ed3dc007ea6383u64,
            0x8b6b51caab7f5b6fu64,
            0xcf2e8cc4181dbfa8u64,
            0xa01d3f1c306f825au64,
            0xccee646a5d8ddb87u64,
            0x70df6f277cbaffebu64,
            0x64ec0a6556b8f45cu64,
            0x6f68c9664fda6e37u64,
        ],
{
    let constants = <GoldilocksField as Poseidon>::FAST_PARTIAL_ROUND_CONSTANTS@;
    let values = seq![
        0xe3ecbb6ba1e16211u64,
        0x70f5b3266792bbb6u64,
        0xe7560e690634757eu64,
        0xafd0202bc7eaf66eu64,
        0x349f4c5871f220fdu64,
        0x3697eb3e31529e0du64,
        0x7735d5b0622d9900u64,
        0x5f5b58b9cf997668u64,
        0x645534b6548af9d9u64,
        0x4232d29d91a426a8u64,
        0xb987278aed485d35u64,
        0x6dabeef669bb406eu64,
        0x35ee78288b749d40u64,
        0x6dcd560f14af0fc3u64,
        0x71ed3dc007ea6383u64,
        0x8b6b51caab7f5b6fu64,
        0xcf2e8cc4181dbfa8u64,
        0xa01d3f1c306f825au64,
        0xccee646a5d8ddb87u64,
        0x70df6f277cbaffebu64,
        0x64ec0a6556b8f45cu64,
        0x6f68c9664fda6e37u64,
    ];
    assert(constants[0] == values[0]);
    assert(constants[1] == values[1]);
    assert(constants[2] == values[2]);
    assert(constants[3] == values[3]);
    assert(constants[4] == values[4]);
    assert(constants[5] == values[5]);
    assert(constants[6] == values[6]);
    assert(constants[7] == values[7]);
    assert(constants[8] == values[8]);
    assert(constants[9] == values[9]);
    assert(constants[10] == values[10]);
    assert(constants[11] == values[11]);
    assert(constants[12] == values[12]);
    assert(constants[13] == values[13]);
    assert(constants[14] == values[14]);
    assert(constants[15] == values[15]);
    assert(constants[16] == values[16]);
    assert(constants[17] == values[17]);
    assert(constants[18] == values[18]);
    assert(constants[19] == values[19]);
    assert(constants[20] == values[20]);
    assert(constants[21] == values[21]);
    assert(constants =~= values);
}

} // verus!
