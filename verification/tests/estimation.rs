use nalgebra::{DMatrix, DVector};
use rand::rngs::StdRng;
use rand::SeedableRng;
use rand_distr::{Distribution, Normal};
use tseries::design::{lag_matrix, targets};
use tseries::params::{pack, split, Params};
use tseries::score::score_key;
use tseries::select::select_order;
use tseries::simulate::simulation_plan;

fn simulate_ar(phi: &[f64], length: usize, seed: u64) -> Vec<f64> {
    let plan = simulation_plan(length, phi.len(), 0, 0).unwrap();
    let normal = Normal::new(0.0, 1.0).unwrap();
    let mut rng = StdRng::seed_from_u64(seed);
    let mut out: Vec<f64> = (0..plan.draws).map(|_| normal.sample(&mut rng)).collect();
    for i in plan.burn_in..plan.draws {
        for j in 0..phi.len() {
            out[i] += phi[j] * out[i - j - 1];
        }
    }
    out[plan.burn_in..plan.keep_end].to_vec()
}

fn least_squares(series: &Vec<f64>, order: usize) -> Vec<f64> {
    let rows = lag_matrix(series, order).unwrap();
    let y = DVector::from_vec(targets(series, order).unwrap());
    let x = DMatrix::from_fn(rows.len(), order, |r, c| rows[r][c]);
    let xtx = x.transpose() * &x;
    let xty = x.transpose() * &y;
    let solution = xtx.cholesky().unwrap().solve(&xty);
    solution.iter().cloned().collect()
}

fn residual_sum_of_squares(series: &Vec<f64>, phi: &[f64]) -> f64 {
    let order = phi.len();
    let rows = lag_matrix(series, order).unwrap();
    let y = targets(series, order).unwrap();
    let mut rss = 0.0;
    for (row, target) in rows.iter().zip(y.iter()) {
        let mut prediction = 0.0;
        for (coefficient, regressor) in phi.iter().zip(row.iter()) {
            prediction += coefficient * regressor;
        }
        rss += (target - prediction) * (target - prediction);
    }
    rss
}

fn bic(series: &Vec<f64>, order: usize) -> f64 {
    let n = series.len() as f64;
    let phi = least_squares(series, order);
    let variance = residual_sum_of_squares(series, &phi) / n;
    n * variance.ln() + order as f64 * n.ln()
}

#[test]
fn simulated_series_has_the_planned_length() {
    assert_eq!(simulate_ar(&[0.5], 1000, 1).len(), 1000);
    assert_eq!(simulate_ar(&[0.2, 0.1, -0.3], 17, 2).len(), 17);
}

#[test]
fn least_squares_on_the_lag_matrix_recovers_the_coefficient() {
    let series = simulate_ar(&[0.7], 5000, 42);
    let phi = least_squares(&series, 1);
    assert_eq!(phi.len(), 1);
    assert!((phi[0] - 0.7).abs() < 0.05);
}

#[test]
fn least_squares_on_the_lag_matrix_recovers_three_coefficients() {
    let truth = [-0.5, 0.3, 0.1];
    let series = simulate_ar(&truth, 20000, 7);
    let phi = least_squares(&series, 3);
    assert_eq!(phi.len(), 3);
    for (estimate, expected) in phi.iter().zip(truth.iter()) {
        assert!((estimate - expected).abs() < 0.05);
    }
}

#[test]
fn least_squares_fit_is_no_worse_than_the_zero_model() {
    for seed in 0..5 {
        let series = simulate_ar(&[0.5], 300, seed);
        for order in 1..6 {
            let phi = least_squares(&series, order);
            let zeros = vec![0.0; order];
            let fitted = residual_sum_of_squares(&series, &phi);
            let zero_model = residual_sum_of_squares(&series, &zeros);
            assert!(fitted <= zero_model);
        }
    }
}

#[test]
fn exact_autoregression_is_recovered_exactly() {
    // x[t] = 2 x[t-1] - x[t-2] + 1 x[t-3] on integers that binary64 holds exactly.
    let mut series = vec![1.0, -2.0, 3.0];
    for t in 3..12 {
        let next = 2.0 * series[t - 1] - series[t - 2] + series[t - 3];
        series.push(next);
    }
    let rss = residual_sum_of_squares(&series, &[2.0, -1.0, 1.0]);
    assert_eq!(rss, 0.0);
}

#[test]
fn bic_selection_over_five_orders_agrees_with_a_linear_scan() {
    for seed in 0..8 {
        let series = simulate_ar(&[0.6, -0.3], 800, 100 + seed);
        let values: Vec<f64> = (1..=5).map(|order| bic(&series, order)).collect();
        let scores: Vec<Option<i64>> = values.iter().map(|v| score_key(v.to_bits())).collect();

        let mut scan = 0;
        for i in 1..values.len() {
            if values[i] < values[scan] {
                scan = i;
            }
        }
        assert_eq!(select_order(&scores), scan + 1);
    }
}

#[test]
fn bic_selection_finds_the_true_order_of_a_clear_case() {
    let series = simulate_ar(&[0.6, -0.3], 5000, 11);
    let scores: Vec<Option<i64>> =
        (1..=5).map(|order| score_key(bic(&series, order).to_bits())).collect();
    assert_eq!(select_order(&scores), 2);
}

#[test]
fn a_criterion_that_is_no_number_never_wins() {
    let values = [f64::NAN, 12.5, f64::NAN, 12.25, f64::INFINITY];
    let scores: Vec<Option<i64>> = values.iter().map(|v| score_key(v.to_bits())).collect();
    assert_eq!(select_order(&scores), 4);
    let nothing = [f64::NAN, f64::NAN];
    let scores: Vec<Option<i64>> = nothing.iter().map(|v| score_key(v.to_bits())).collect();
    assert_eq!(select_order(&scores), 0);
}

#[test]
fn negative_infinity_wins_over_every_number() {
    let values = [3.0, f64::NEG_INFINITY, -1.0e308, f64::NEG_INFINITY];
    let scores: Vec<Option<i64>> = values.iter().map(|v| score_key(v.to_bits())).collect();
    assert_eq!(select_order(&scores), 2);
}

#[test]
fn parameter_vector_round_trips_through_the_layout() {
    let params = Params { intercept: 0.25, phi: vec![0.5, -0.125], theta: vec![1.0, 1.0, 1.0] };
    let coef = pack(&params);
    assert_eq!(coef, vec![0.25, 0.5, -0.125, 1.0, 1.0, 1.0]);
    let back = split(&coef, 2, 3).unwrap();
    assert_eq!(back.intercept, 0.25);
    assert_eq!(back.phi, vec![0.5, -0.125]);
    assert_eq!(back.theta, vec![1.0, 1.0, 1.0]);
}
