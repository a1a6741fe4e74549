use ere::zkvm_interface::{
    ecrecover_address, first_mismatch, fixture_order, modexp_output, from_hex, missing_accelerators, pairing_outcome, to_aligned_pairs,
    to_array, to_byte, to_hex, verification_outcome, Accelerator, Fixture, FixtureVector, Outcome,
    Vector, NUM_ACCELERATORS,
};

fn vector(accelerator: Accelerator, inputs: Vec<Vec<u8>>, status: i32, output: Vec<u8>) -> Vector {
    Vector { accelerator, inputs, expected: Outcome::new(status, output) }
}

#[test]
fn accelerator_names_round_trip() {
    let all = Accelerator::iter();
    assert_eq!(all.len(), NUM_ACCELERATORS);
    for a in all {
        assert_eq!(Accelerator::from_name(a.name()), Some(a));
    }
    assert_eq!(Accelerator::Bls12381Fp2ToG2.name(), "bls12_381_fp2_to_g2");
    assert_eq!(Accelerator::Secp256k1Ecrecover.name(), "secp256k1_ecrecover");
    assert_eq!(Accelerator::from_name("sha512"), None);
    assert_eq!(Accelerator::from_name("Sha256"), None);
}

#[test]
fn pair_sizes() {
    assert_eq!(Accelerator::Bn254PairingCheck.pair_size(), Some(192));
    assert_eq!(Accelerator::Bls12381G1Msm.pair_size(), Some(128));
    assert_eq!(Accelerator::Bls12381G2Msm.pair_size(), Some(224));
    assert_eq!(Accelerator::Bls12381PairingCheck.pair_size(), Some(288));
    assert_eq!(Accelerator::Sha256.pair_size(), None);
    let v = vector(Accelerator::Bls12381G1Msm, vec![vec![0; 384]], 0, vec![]);
    assert_eq!(v.num_pairs(), 3);
    let v = vector(Accelerator::Sha256, vec![vec![1, 2, 3]], 0, vec![]);
    assert_eq!(v.num_pairs(), 1);
}

#[test]
fn failed_outcome_drops_output() {
    let o = Outcome::new(-1, vec![1, 2]);
    assert_eq!(o.status, -1);
    assert_eq!(o.output, None);
    let o = Outcome::new(0, vec![1, 2]);
    assert_eq!(o.output, Some(vec![1, 2]));
}

#[test]
fn argument_conversions() {
    let a: [u8; 3] = to_array(&[7, 8, 9]);
    assert_eq!(a, [7, 8, 9]);
    assert_eq!(to_byte(&[42]), 42);
    let bytes: Vec<u8> = (1u8..=17).collect();
    let v = vector(Accelerator::Bn254PairingCheck, vec![bytes], 0, vec![]);
    assert_eq!(
        to_aligned_pairs(&v),
        vec![
            u64::from_le_bytes([1, 2, 3, 4, 5, 6, 7, 8]),
            u64::from_le_bytes([9, 10, 11, 12, 13, 14, 15, 16]),
        ]
    );
}

#[test]
fn hex_round_trip() {
    assert_eq!(to_hex(&[0x00, 0xab, 0x10]), "0x00ab10");
    assert_eq!(to_hex(&[]), "0x");
    assert_eq!(from_hex("0x00ab10"), Some(vec![0x00, 0xab, 0x10]));
    assert_eq!(from_hex("0x00AB10"), Some(vec![0x00, 0xab, 0x10]));
    assert_eq!(from_hex("00ab10"), None);
    assert_eq!(from_hex("0x0ab"), None);
    assert_eq!(from_hex("0xzz"), None);
    assert_eq!(from_hex("0x"), Some(vec![]));
    let bytes: Vec<u8> = (0u8..=255).collect();
    assert_eq!(from_hex(&to_hex(&bytes)), Some(bytes));
}

#[test]
fn fixture_round_trip() {
    let vectors = vec![
        vector(Accelerator::Modexp, vec![vec![2], vec![3], vec![5]], 0, vec![3]),
        vector(Accelerator::Modexp, vec![vec![], vec![], vec![0]], -1, vec![9]),
    ];
    let fixture = Fixture::new(Accelerator::Modexp, &vectors);
    assert_eq!(fixture.accelerator, "modexp");
    assert_eq!(fixture.vectors[0].inputs, vec!["0x02", "0x03", "0x05"]);
    assert_eq!(fixture.vectors[0].output, Some("0x03".to_string()));
    assert_eq!(fixture.vectors[0].status, 0);
    assert_eq!(fixture.vectors[1].inputs, vec!["0x", "0x", "0x00"]);
    assert_eq!(fixture.vectors[1].output, None);
    assert_eq!(fixture.vectors[1].status, -1);
    assert_eq!(fixture.into_vectors(), vectors);
}

#[test]
fn fixture_from_disk_form() {
    let fixture = Fixture {
        accelerator: "sha256".to_string(),
        vectors: vec![FixtureVector {
            inputs: vec!["0x6162".to_string()],
            output: Some("0xFF00".to_string()),
            status: 0,
        }],
    };
    let vs = fixture.into_vectors();
    assert_eq!(vs.len(), 1);
    assert_eq!(vs[0].accelerator, Accelerator::Sha256);
    assert_eq!(vs[0].inputs, vec![vec![0x61, 0x62]]);
    assert_eq!(vs[0].expected.output, Some(vec![0xff, 0x00]));
}

#[test]
fn fixtures_ascend_by_name() {
    let accs = [
        Accelerator::Sha256,
        Accelerator::Bls12381G1Add,
        Accelerator::Blake2Compress,
        Accelerator::Bls12381Fp2ToG2,
        Accelerator::Bls12381FpToG1,
        Accelerator::Bn254G1Add,
        Accelerator::Sha256,
        Accelerator::Modexp,
    ];
    let order = fixture_order(&accs);
    assert_eq!(order, vec![2, 3, 4, 1, 5, 7, 0, 6]);
    let names: Vec<&str> = order.iter().map(|i| accs[*i].name()).collect();
    let mut sorted = names.clone();
    sorted.sort();
    assert_eq!(names, sorted);
}

#[test]
fn full_corpus_sorts_like_its_names() {
    let all = Accelerator::iter();
    let order = fixture_order(&all);
    let names: Vec<&str> = order.iter().map(|i| all[*i].name()).collect();
    let mut expected: Vec<&str> = all.iter().map(|a| a.name()).collect();
    expected.sort();
    assert_eq!(names, expected);
    assert_eq!(fixture_order(&[]), Vec::<usize>::new());
}

#[test]
fn missing_fixtures() {
    assert!(missing_accelerators(&Accelerator::iter()).is_empty());
    assert_eq!(missing_accelerators(&[]), Accelerator::iter());
    let loaded: Vec<Accelerator> =
        Accelerator::iter().into_iter().filter(|a| *a != Accelerator::Modexp && *a != Accelerator::Sha256).collect();
    assert_eq!(missing_accelerators(&loaded), vec![Accelerator::Sha256, Accelerator::Modexp]);
}

#[test]
fn guest_outcome_forms() {
    let hash = [0xaau8; 32];
    let a = ecrecover_address(hash);
    assert_eq!(&a[..12], &[0u8; 12]);
    assert_eq!(&a[12..], &[0xaau8; 20]);

    let o = verification_outcome(0, true);
    assert_eq!((o.status, o.output), (0, Some(vec![1])));
    let o = verification_outcome(-1, true);
    assert_eq!((o.status, o.output), (0, Some(vec![0])));
    let o = verification_outcome(0, false);
    assert_eq!((o.status, o.output), (0, Some(vec![0])));

    let o = pairing_outcome(0, true);
    assert_eq!((o.status, o.output), (0, Some(vec![1])));
    let o = pairing_outcome(-1, true);
    assert_eq!((o.status, o.output), (-1, None));
}

#[test]
fn guest_check_finds_first_mismatch() {
    let vectors = vec![
        vector(Accelerator::Sha256, vec![vec![1]], 0, vec![7, 7]),
        vector(Accelerator::Sha256, vec![vec![2]], -1, vec![]),
        vector(Accelerator::Sha256, vec![vec![3]], 0, vec![9]),
    ];
    let good = vec![Outcome::new(0, vec![7, 7]), Outcome::new(-1, vec![1]), Outcome::new(0, vec![9])];
    assert_eq!(first_mismatch(&good, &vectors), None);
    let bad = vec![Outcome::new(0, vec![7, 7]), Outcome::new(-1, vec![]), Outcome::new(0, vec![8])];
    assert_eq!(first_mismatch(&bad, &vectors), Some(2));
    let bad = vec![Outcome::new(0, vec![7]), Outcome::new(0, vec![]), Outcome::new(0, vec![8])];
    assert_eq!(first_mismatch(&bad, &vectors), Some(0));
}

#[test]
fn modexp_output_is_sized_by_the_modulus() {
    assert_eq!(modexp_output(&[1, 2, 3]), vec![0, 0, 0]);
    assert!(modexp_output(&[]).is_empty());
}
