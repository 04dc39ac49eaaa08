use poseidon2::field::goldilocks_field::GoldilocksField as F;
use poseidon2::field::types::PrimeField64;
use poseidon2::hash::poseidon2::Poseidon;

fn check_test_vectors(test_vectors: Vec<([u64; 12], [u64; 12])>) {
    for (input_, expected_output_) in test_vectors.into_iter() {
        let mut input = [F::zero(); 12];
        for i in 0..12 {
            input[i] = F::from_canonical_u64(input_[i]);
        }
        let output = F::poseidon(input);
        for i in 0..12 {
            let ex_output = F::from_canonical_u64(expected_output_[i]);
            assert_eq!(output[i], ex_output);
        }
    }
}

#[test]
fn test_vectors() {
    // Test inputs are:
    // 1. all zeros
    // 2. range 0..WIDTH
    // 3. all -1's
    // 4. random elements of GoldilocksField.

    let neg_one: u64 = F::neg_one().to_canonical_u64();

    let test_vectors12: Vec<([u64; 12], [u64; 12])> = vec![
        ([0, 0, 0, 0, 0, 0, 0, 0, 0, 0, 0, 0, ],
         [0x40e4c449028440b0, 0x8d5233d4e1ff2fa3, 0xd8809d1ad0ac1e59, 0x5b9f29d2bf3a7634,
          0xb65233ad9dac1203, 0x7ad00f9950e4cac3, 0x98a0e39e8dac0fcf, 0xd307875ffd783c9b,
          0x52eedea15d5113c1, 0xdd0572185641c6cd, 0xf16bca8e9ac45377, 0xe8608627f86706ee, ]),
        ([0, 1, 2, 3, 4, 5, 6, 7, 8, 9, 10, 11, ],
         [0xed3dbcc4ff1e8d33, 0xfb85eac6ac91a150, 0xd41e1e237ed3e2ef, 0x5e289bf0a4c11897,
          0x4398b20f93e3ba6b, 0x5659a48ffaf2901d, 0xe44d81e89a88f8ae, 0x08efdb285f8c3dbc,
          0x294ab7503297850e, 0xa11c61f4870b9904, 0xa6855c112cc08968, 0x17c6d53d2fb3e8c1, ]),
        ([neg_one, neg_one, neg_one, neg_one,
          neg_one, neg_one, neg_one, neg_one,
          neg_one, neg_one, neg_one, neg_one, ],
         [0x43440ca93949b6a3, 0xb5325069fc0c5be, 0x27f20a696c4a412f, 0xd3ef1fc535544e99,
          0xa86f114930aa54e7, 0xe8de96658e80539a, 0xf491b996d437406e, 0x4a72b9ae397da707,
          0x47e6721112b1948a, 0xd315f6e6a1f694c4, 0xeaef93714a28f7e9, 0x73a68e8d713b126, ]),
        ([0x1d7c737cc91e6483, 0x4feb55496ea6b6e6, 0x53423d77d4f30aa2, 0xe6138c885b0a5dbf,
          0x6b483f95c6db532a, 0xe679be9527cdb0b5, 0xa17d03ae46d7a37, 0xe54703b5c2b20691,
          0x335f1485f09e0343, 0x6dc544817c0912e, 0x3021fdd09dd3c146, 0x59886699bae1a62f, ],
         [0xdcad441ef7e65d47, 0x95c2bda147c5a79d, 0xc60fdabee2f2b228, 0x3a6fe78ed2edcfe2,
          0x4cbe241c5329e4aa, 0x1fa87ef1df8f5a16, 0x3586e88a1da0e9d4, 0xf0a171763063ec4d,
          0x53f4bd20938996a8, 0xc1d1ef0e1ab6a925, 0x3d20ed2799ffce06, 0x12357cf854fbc4a8, ]),
    ];

    check_test_vectors(test_vectors12);
}
