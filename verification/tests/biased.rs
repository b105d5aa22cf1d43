use dp_client::runner::BinomialRunner;

const INPUT: [u8; 10] = [1, 1, 1, 0, 0, 1, 0, 1, 1, 1];

#[test]
fn biased_honest_run() {
    let mut br = BinomialRunner::new(&INPUT);
    let _coms = br.get_x_commits();
    br.rand_p_init(6).unwrap();
    for _ in 0..6 {
        assert!(br.random_variable_p_input(2, 5, &[1, 0, 1, 0, 0]).unwrap());
    }
    assert!(br.random_variable_p_end().unwrap());
    let xorbits = br.get_xor_bits();
    assert_eq!(xorbits.len(), 6);
    for &b in &xorbits {
        assert!(b <= 1);
    }
    let noise_sum: u64 = xorbits.iter().map(|&b| b as u64).sum();
    let out = br.compute_sum().unwrap();
    assert_eq!(out, 7 + noise_sum);
    let _z = br.get_z();
    br.commit_pedersons().unwrap();
    assert_eq!(br.get_lhs(), br.get_rhs());
}

#[test]
fn biased_cheat_detected() {
    let mut br = BinomialRunner::new(&INPUT);
    br.rand_p_init(6).unwrap();
    for _ in 0..6 {
        assert!(br.random_variable_p_input(2, 5, &[1, 0, 1, 0, 0]).unwrap());
    }
    assert!(br.random_variable_p_end().unwrap());
    let mut forged = br.get_xor_bits();
    forged[0] ^= 1;
    br.overwrite_xor_bits(&forged).unwrap();
    let _out = br.compute_sum().unwrap();
    br.commit_pedersons().unwrap();
    assert_ne!(br.get_lhs(), br.get_rhs());
}

#[test]
fn biased_malformed_rejected() {
    let mut br = BinomialRunner::new(&INPUT);
    br.rand_p_init(1).unwrap();
    assert!(!br.random_variable_p_input(3, 5, &[1, 0, 1, 0, 0]).unwrap());
    assert!(!br.random_variable_p_input(2, 5, &[1, 0, 1, 0]).unwrap());
    assert!(!br.random_variable_p_input(2, -1, &[1, 0, 1, 0, 0]).unwrap());
    assert!(br.random_variable_p_input(2, 5, &[1, 0, 1, 0, 0]).unwrap());
    assert!(br.random_variable_p_end().unwrap());
}

#[test]
fn range_bits_are_normalised() {
    let mut br = BinomialRunner::new(&INPUT);
    br.rand_p_init(1).unwrap();
    assert!(br.random_variable_p_input(2, 3, &[2, 0, 9]).unwrap());
    assert!(br.random_variable_p_end().unwrap());
    assert_eq!(br.get_xor_bits().len(), 1);
}

#[test]
fn k_zero_range() {
    let mut br = BinomialRunner::new(&INPUT);
    br.rand_p_init(1).unwrap();
    assert!(!br.random_variable_p_input(0, 3, &[0, 1, 0]).unwrap());
    assert!(br.random_variable_p_input(0, 3, &[0, 0, 0]).unwrap());
    assert!(br.random_variable_p_end().unwrap());
    assert_eq!(br.get_xor_bits(), vec![0]);
    let out = br.compute_sum().unwrap();
    assert_eq!(out, 7);
    br.commit_pedersons().unwrap();
    assert_eq!(br.get_lhs(), br.get_rhs());
}

#[test]
fn k_full_range() {
    let mut br = BinomialRunner::new(&INPUT);
    br.rand_p_init(1).unwrap();
    assert!(!br.random_variable_p_input(3, 3, &[1, 0, 1]).unwrap());
    assert!(br.random_variable_p_input(3, 3, &[1, 1, 1]).unwrap());
    assert!(br.random_variable_p_end().unwrap());
    assert_eq!(br.get_xor_bits(), vec![1]);
    let out = br.compute_sum().unwrap();
    assert_eq!(out, 8);
    br.commit_pedersons().unwrap();
    assert_eq!(br.get_lhs(), br.get_rhs());
}

#[test]
fn end_requires_declared_count() {
    let mut br = BinomialRunner::new(&INPUT);
    br.rand_p_init(2).unwrap();
    assert!(br.random_variable_p_input(1, 2, &[1, 0]).unwrap());
    assert!(!br.random_variable_p_end().unwrap());
    assert!(br.random_variable_p_input(1, 2, &[0, 1]).unwrap());
    assert!(br.random_variable_p_end().unwrap());
}

#[test]
fn empty_range_contributes_zero() {
    let mut br = BinomialRunner::new(&INPUT);
    br.rand_p_init(1).unwrap();
    assert!(br.random_variable_p_input(0, 0, &[]).unwrap());
    assert!(br.random_variable_p_end().unwrap());
    assert_eq!(br.get_xor_bits(), vec![0]);
    br.compute_sum().unwrap();
    br.commit_pedersons().unwrap();
    assert_eq!(br.get_lhs(), br.get_rhs());
}
