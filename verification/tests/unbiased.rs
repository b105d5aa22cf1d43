use dp_client::runner::BinomialRunner;

const INPUT: [u8; 10] = [1, 1, 1, 0, 0, 1, 0, 1, 1, 1];
const NOISE: [u8; 6] = [1, 1, 0, 0, 1, 0];

#[test]
fn unbiased_honest_run() {
    let mut br = BinomialRunner::new(&INPUT);
    let coms = br.get_x_commits();
    assert_eq!(coms.len(), 10);
    br.input_randomness(&NOISE).unwrap();
    let priv_coms = br.get_private_random_commits();
    assert_eq!(priv_coms.len(), 6);
    let pubrand = br.get_public_random();
    assert_eq!(pubrand.len(), 6);
    let xorbits = br.get_xor_bits();
    assert_eq!(xorbits.len(), 6);
    for i in 0..6 {
        assert!(pubrand[i] <= 1);
        assert_eq!(xorbits[i], NOISE[i] ^ pubrand[i]);
    }
    let out = br.compute_sum().unwrap();
    assert!(out >= 7 && out <= 13);
    let _z = br.get_z();
    br.commit_pedersons().unwrap();
    assert_eq!(br.get_lhs(), br.get_rhs());
}

#[test]
fn unbiased_published_sum_is_count_plus_noise() {
    let mut br = BinomialRunner::new(&INPUT);
    br.input_randomness(&NOISE).unwrap();
    let xorbits = br.get_xor_bits();
    let noise_sum: u64 = xorbits.iter().map(|&b| b as u64).sum();
    let out = br.compute_sum().unwrap();
    assert_eq!(out, 7 + noise_sum);
}

#[test]
fn unbiased_cheat_detected() {
    let mut br = BinomialRunner::new(&INPUT);
    br.input_randomness(&NOISE).unwrap();
    let mut forged = br.get_xor_bits();
    forged[0] ^= 1;
    br.overwrite_xor_bits(&forged).unwrap();
    let _out = br.compute_sum().unwrap();
    br.commit_pedersons().unwrap();
    assert_ne!(br.get_lhs(), br.get_rhs());
}

#[test]
fn empty_input_succeeds() {
    let mut br = BinomialRunner::new(&[]);
    assert_eq!(br.get_x_commits().len(), 0);
    br.input_randomness(&[]).unwrap();
    let out = br.compute_sum().unwrap();
    assert_eq!(out, 0);
    br.commit_pedersons().unwrap();
    assert_eq!(br.get_lhs(), br.get_rhs());
}

#[test]
fn fresh_session_z_is_zero() {
    let br = BinomialRunner::new(&INPUT);
    assert_eq!(br.get_z(), "0");
}

#[test]
fn input_bits_are_normalised() {
    let mut a = BinomialRunner::new(&[1, 2, 0, 255]);
    let mut b = BinomialRunner::new(&[1, 0, 0, 0]);
    a.input_randomness(&[]).unwrap();
    b.input_randomness(&[]).unwrap();
    assert_eq!(a.compute_sum().unwrap(), 1);
    assert_eq!(b.compute_sum().unwrap(), 1);
}

#[test]
fn getters_idempotent() {
    let mut br = BinomialRunner::new(&INPUT);
    br.input_randomness(&NOISE).unwrap();
    let _ = br.compute_sum().unwrap();
    br.commit_pedersons().unwrap();
    assert_eq!(br.get_x_commits(), br.get_x_commits());
    assert_eq!(br.get_private_random_commits(), br.get_private_random_commits());
    assert_eq!(br.get_public_random(), br.get_public_random());
    assert_eq!(br.get_xor_bits(), br.get_xor_bits());
    assert_eq!(br.get_xor_commits(), br.get_xor_commits());
    assert_eq!(br.get_z(), br.get_z());
    assert_eq!(br.get_lhs(), br.get_lhs());
    assert_eq!(br.get_rhs(), br.get_rhs());
}
