use tseries::params::{pack, split, Params};

#[test]
fn pack_puts_intercept_then_phi_then_theta() {
    let params = Params { intercept: 0.5, phi: vec![0.1, 0.2], theta: vec![0.9] };
    assert_eq!(pack(&params), vec![0.5, 0.1, 0.2, 0.9]);
}

#[test]
fn pack_of_intercept_alone() {
    let params: Params<i32> = Params { intercept: 7, phi: vec![], theta: vec![] };
    assert_eq!(pack(&params), vec![7]);
}

#[test]
fn split_reads_the_three_parts() {
    let coef = vec![1.5, -0.5, 0.3, 0.1, 1.0, 1.0];
    let parts = split(&coef, 3, 2).unwrap();
    assert_eq!(parts.intercept, 1.5);
    assert_eq!(parts.phi, vec![-0.5, 0.3, 0.1]);
    assert_eq!(parts.theta, vec![1.0, 1.0]);
}

#[test]
fn split_of_pure_moving_average() {
    let coef = vec![10, 20, 30];
    let parts = split(&coef, 0, 2).unwrap();
    assert_eq!(parts.intercept, 10);
    assert!(parts.phi.is_empty());
    assert_eq!(parts.theta, vec![20, 30]);
}

#[test]
fn split_of_pure_autoregression() {
    let coef = vec![10, 20, 30];
    let parts = split(&coef, 2, 0).unwrap();
    assert_eq!(parts.intercept, 10);
    assert_eq!(parts.phi, vec![20, 30]);
    assert!(parts.theta.is_empty());
}

#[test]
fn split_turns_down_a_short_vector() {
    let coef = vec![1.0, 2.0];
    assert!(split(&coef, 1, 1).is_none());
    assert!(split(&coef, 2, 0).is_none());
}

#[test]
fn split_turns_down_a_long_vector() {
    let coef = vec![1.0, 2.0, 3.0, 4.0];
    assert!(split(&coef, 1, 1).is_none());
}

#[test]
fn split_turns_down_an_empty_vector() {
    let coef: Vec<u8> = Vec::new();
    assert!(split(&coef, 0, 0).is_none());
}

#[test]
fn split_undoes_pack() {
    let params = Params { intercept: 3i64, phi: vec![4, 5, 6], theta: vec![7, 8] };
    let coef = pack(&params);
    let back = split(&coef, 3, 2).unwrap();
    assert_eq!(back.intercept, 3);
    assert_eq!(back.phi, vec![4, 5, 6]);
    assert_eq!(back.theta, vec![7, 8]);
}

#[test]
fn pack_undoes_split() {
    let coef = vec![9u16, 8, 7, 6, 5];
    for ar in 0..5 {
        let parts = split(&coef, ar, 4 - ar).unwrap();
        assert_eq!(parts.phi.len(), ar);
        assert_eq!(parts.theta.len(), 4 - ar);
        assert_eq!(pack(&parts), coef);
    }
}
