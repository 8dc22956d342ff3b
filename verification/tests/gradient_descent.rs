use linear_regression::matrix::Matrix;
use linear_regression::regression::{FitAction, FitEvent, FitState, LinearRegression};
use ndarray::{concatenate, Array1, Array2, Axis};

fn to_patterns(values: &[f64]) -> Vec<u64> {
    values.iter().map(|v| v.to_bits()).collect()
}

fn to_matrix(rows: usize, cols: usize, values: &[f64]) -> Matrix {
    Matrix::from_shape_vec(rows, cols, to_patterns(values)).unwrap()
}

fn to_array2(m: &Matrix) -> Array2<f64> {
    Array2::from_shape_fn((m.rows(), m.cols()), |(r, c)| f64::from_bits(m.get(r, c).unwrap()))
}

fn to_array1(v: &[u64]) -> Array1<f64> {
    v.iter().map(|b| f64::from_bits(*b)).collect()
}

/// One round of gradient descent from the regression's parameters.
fn one_round(lr: &LinearRegression) -> Vec<u64> {
    let x = to_array2(lr.design());
    let y = to_array1(lr.targets());
    let theta = to_array1(lr.theta());
    let rate = f64::from_bits(lr.learning_rate());
    let predictions = x.dot(&theta);
    let errors = predictions - &y;
    let step = x.t().dot(&errors) * rate / x.shape()[0] as f64;
    let next = theta - &step;
    next.iter().map(|v| v.to_bits()).collect()
}

/// A whole fit; returns the number of rounds that were asked for.
fn whole_fit(lr: &mut LinearRegression) -> u64 {
    let mut rounds = 0;
    let (mut state, mut action) = lr.fit(FitState { due: 0 }, FitEvent::Start).unwrap();
    while action == FitAction::Descend {
        let theta = one_round(lr);
        let next = lr.fit(state, FitEvent::Round(theta)).unwrap();
        state = next.0;
        action = next.1;
        rounds += 1;
    }
    rounds
}

fn predictions(lr: &LinearRegression, x: Matrix) -> Array1<f64> {
    to_array2(&lr.predict(x).unwrap()).dot(&to_array1(lr.theta()))
}

fn mean_squared_error(lr: &LinearRegression) -> f64 {
    let errors = to_array2(lr.design()).dot(&to_array1(lr.theta())) - &to_array1(lr.targets());
    errors.dot(&errors) / errors.len() as f64
}

fn six_samples() -> LinearRegression {
    let x = to_matrix(6, 2, &[2., 1., 3., 1., 4., 1., 2., 2., 3., 2., 3., 3.]);
    let y = to_patterns(&[2., 4., 6., 2.5, 4.5, 5.]);
    LinearRegression::new(x, y).unwrap()
}

#[test]
fn test_linear_regression() {
    let x = to_matrix(6, 2, &[2., 1., 3., 1., 4., 1., 2., 2., 3., 2., 3., 3.]);
    let y = to_patterns(&[2., 4., 6., 2.5, 4.5, 5.]);

    let mut lr = LinearRegression::new(x, y).unwrap();
    lr.set_iterations(100);

    whole_fit(&mut lr);

    let test_x = to_matrix(1, 2, &[3., 2.]);
    let prediction = predictions(&lr, test_x);

    println!("Prediction: {}", prediction);
    assert!(prediction.get(0).unwrap() > &4.2 && prediction.get(0).unwrap() < &4.8);
}

#[test]
fn fit_runs_as_many_rounds_as_iterations() {
    let mut lr = six_samples();
    lr.set_iterations(37);
    assert_eq!(whole_fit(&mut lr), 37);
    lr.set_iterations(1);
    assert_eq!(whole_fit(&mut lr), 1);
    lr.set_iterations(0);
    assert_eq!(whole_fit(&mut lr), 0);
    lr.set_iterations(-5);
    assert_eq!(whole_fit(&mut lr), 0);
    let mut lr = six_samples();
    assert_eq!(whole_fit(&mut lr), 1000);
}

#[test]
fn first_round_from_zero_is_the_scaled_mean_gradient() {
    let x = to_matrix(2, 1, &[1., 3.]);
    let mut lr = LinearRegression::new(x, to_patterns(&[2., 4.])).unwrap();
    lr.set_iterations(1);
    lr.set_learning_rate(0.5f64.to_bits());
    whole_fit(&mut lr);
    // errors = (-2, -4); gradient = (-6, -14); step = gradient * 0.5 / 2
    assert_eq!(lr.theta(), &to_patterns(&[1.5, 3.5]));
}

#[test]
fn fit_of_no_iterations_leaves_zero_and_predicts_zero() {
    let mut lr = six_samples();
    lr.set_iterations(0);
    whole_fit(&mut lr);
    assert_eq!(lr.theta(), &vec![0u64, 0, 0]);
    let x = to_matrix(3, 2, &[3., 2., -1.5, 1e300, 0., 0.]);
    let predicted = predictions(&lr, x);
    assert_eq!(predicted.len(), 3);
    for p in predicted.iter() {
        assert_eq!(*p, 0.0);
    }
}

#[test]
fn two_fits_resume_as_one_of_twice_the_rounds() {
    for n in [0i64, 1, 2, 17, 50] {
        let mut twice = six_samples();
        twice.set_iterations(n);
        whole_fit(&mut twice);
        whole_fit(&mut twice);
        let mut once = six_samples();
        once.set_iterations(2 * n);
        whole_fit(&mut once);
        assert_eq!(twice.theta(), once.theta());
    }
}

#[test]
fn loss_does_not_grow_in_early_rounds() {
    let mut lr = six_samples();
    lr.set_iterations(1);
    let mut before = mean_squared_error(&lr);
    for _ in 0..50 {
        whole_fit(&mut lr);
        let after = mean_squared_error(&lr);
        assert!(after <= before);
        before = after;
    }
}

#[test]
fn loss_does_not_grow_on_other_lines() {
    let lines = [(1.0, 2.0), (-3.0, 0.5), (0.0, -1.25), (10.0, 0.0)];
    for (intercept, slope) in lines {
        let xs: Vec<f64> = (0..8).map(|i| i as f64 * 0.25).collect();
        let ys: Vec<f64> = xs.iter().map(|v| intercept + slope * v).collect();
        let mut lr = LinearRegression::new(to_matrix(8, 1, &xs), to_patterns(&ys)).unwrap();
        lr.set_iterations(1);
        let mut before = mean_squared_error(&lr);
        for _ in 0..30 {
            whole_fit(&mut lr);
            let after = mean_squared_error(&lr);
            assert!(after <= before);
            before = after;
        }
    }
}

#[test]
fn too_large_a_learning_rate_goes_unreported() {
    let mut lr = six_samples();
    lr.set_iterations(2000);
    lr.set_learning_rate(10.0f64.to_bits());
    assert_eq!(whole_fit(&mut lr), 2000);
    assert!(lr.theta().iter().any(|t| !f64::from_bits(*t).is_finite()));
    let predicted = predictions(&lr, to_matrix(1, 2, &[3., 2.]));
    assert!(!predicted[0].is_finite());
}

#[test]
fn with_bias_agrees_with_a_column_of_ones_joined_in_front() {
    let values = [2., 1., -3.5, 0., 1e-300, 7.25, -0., 4.];
    for (rows, cols) in [(4usize, 2usize), (2, 4), (8, 1), (1, 8), (3, 0), (0, 3)] {
        let x = Array2::from_shape_vec((rows, cols), values[..rows * cols].to_vec()).unwrap();
        let ones = Array2::<f64>::ones((rows, 1));
        let joined = concatenate(Axis(1), &[ones.view(), x.view()]).unwrap();
        let design = LinearRegression::with_bias(to_matrix(rows, cols, &values[..rows * cols]));
        assert_eq!(to_array2(&design), joined);
    }
}

#[test]
fn new_parameters_agree_with_an_array_of_zeros() {
    for cols in 0..5usize {
        let x = to_matrix(2, cols, &vec![1.5; 2 * cols]);
        let lr = LinearRegression::new(x, to_patterns(&[1., 2.])).unwrap();
        assert_eq!(to_array1(lr.theta()), Array1::<f64>::zeros(cols + 1));
        assert_eq!(to_patterns(Array1::<f64>::zeros(cols + 1).as_slice().unwrap()), *lr.theta());
    }
}

#[test]
fn fit_agrees_with_descent_on_arrays_alone() {
    let x = Array2::from_shape_vec((6, 2), vec![2., 1., 3., 1., 4., 1., 2., 2., 3., 2., 3., 3.])
        .unwrap();
    let y = Array1::from(vec![2., 4., 6., 2.5, 4.5, 5.]);
    let design = concatenate(Axis(1), &[Array2::ones((6, 1)).view(), x.view()]).unwrap();
    let mut theta = Array1::<f64>::zeros(3);
    for _ in 0..100 {
        let predictions = design.dot(&theta);
        let errors = predictions - &y;
        let step = design.t().dot(&errors) * 0.01 / design.shape()[0] as f64;
        theta -= &step;
    }

    let mut lr = six_samples();
    lr.set_iterations(100);
    whole_fit(&mut lr);
    assert_eq!(*lr.theta(), to_patterns(theta.as_slice().unwrap()));
}
