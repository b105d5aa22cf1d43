use dp_client::runner::BinomialRunner;
use dp_client::runner::ProtocolError;
use dp_client::messages::NewRunnerRequest;
use dp_client::messages::ComputeSumResponse;

#[test]
fn finalise_out_of_order() {
    let mut br = BinomialRunner::new(&[1, 0, 1]);
    assert_eq!(br.commit_pedersons(), Err(ProtocolError::OutOfOrder));
    assert_eq!(br.compute_sum(), Err(ProtocolError::OutOfOrder));
    assert_eq!(br.overwrite_xor_bits(&[1]), Err(ProtocolError::OutOfOrder));
    assert_eq!(br.random_variable_p_input(1, 1, &[1]), Err(ProtocolError::OutOfOrder));
    assert_eq!(br.random_variable_p_end(), Err(ProtocolError::OutOfOrder));
    br.input_randomness(&[1]).unwrap();
}

#[test]
fn modes_are_exclusive() {
    let mut a = BinomialRunner::new(&[1, 0]);
    a.input_randomness(&[1]).unwrap();
    assert_eq!(a.rand_p_init(1), Err(ProtocolError::OutOfOrder));
    let mut b = BinomialRunner::new(&[1, 0]);
    b.rand_p_init(1).unwrap();
    assert_eq!(b.input_randomness(&[1]), Err(ProtocolError::OutOfOrder));
}

#[test]
fn session_is_single_use() {
    let mut br = BinomialRunner::new(&[1, 0]);
    br.input_randomness(&[1]).unwrap();
    assert_eq!(br.input_randomness(&[1]), Err(ProtocolError::OutOfOrder));
    let _ = br.compute_sum().unwrap();
    assert_eq!(br.compute_sum(), Err(ProtocolError::OutOfOrder));
    assert_eq!(br.overwrite_xor_bits(&[0]), Err(ProtocolError::OutOfOrder));
    br.commit_pedersons().unwrap();
    assert_eq!(br.commit_pedersons(), Err(ProtocolError::OutOfOrder));
}

#[test]
fn message_types_carry_plain_data() {
    let req = NewRunnerRequest { n: 3, x: vec![1, 0, 1] };
    assert_eq!(req.x.len(), 3);
    let resp = ComputeSumResponse { final_sum: 7 };
    assert_eq!(resp.final_sum, 7);
}
