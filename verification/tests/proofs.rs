use dp_client::runner::BinomialRunner;
use dp_client::sigma::{create_proof_0, verify_bit_proof, ProofOfBit};

#[test]
fn bit_proof_verifies_for_both_bits() {
    let br = BinomialRunner::new(&[]);
    for bit in 0..2u8 {
        let t = create_proof_0(bit, &br.h);
        assert!(verify_bit_proof(&t, &br.h));
    }
}

#[test]
fn tampered_bit_proof_is_rejected() {
    let br = BinomialRunner::new(&[]);
    let t = create_proof_0(1, &br.h);
    let tampered = ProofOfBit {
        com: t.com,
        a0: t.a1,
        a1: t.a0,
        c: t.c,
        c0: t.c0,
        c1: t.c1,
        z0: t.z0,
        z1: t.z1,
    };
    assert!(!verify_bit_proof(&tampered, &br.h));
}
