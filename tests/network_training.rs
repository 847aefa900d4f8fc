use neural_net::matrix::{Matrix, MatrixError};
use neural_net::network::NeuralNet;
use neural_net::Real;
use rand::rngs::StdRng;
use rand::{Rng, SeedableRng};

#[derive(Clone, Copy, Debug, PartialEq)]
struct F(f32);

impl Real for F {
    fn zero() -> Self {
        F(0.0)
    }
    fn one() -> Self {
        F(1.0)
    }
    fn plus(&self, other: &Self) -> Self {
        F(self.0 + other.0)
    }
    fn minus(&self, other: &Self) -> Self {
        F(self.0 - other.0)
    }
    fn times(&self, other: &Self) -> Self {
        F(self.0 * other.0)
    }
    fn divided_by(&self, other: &Self) -> Self {
        F(self.0 / other.0)
    }
    fn logistic(&self) -> Self {
        F(1.0 / (1.0 + (-self.0).exp()))
    }
    fn sample_symmetric(rng: &mut StdRng) -> Self {
        F(rng.gen::<f32>() * 2.0 - 1.0)
    }
}

fn fs(v: &[f32]) -> Vec<F> {
    v.iter().map(|x| F(*x)).collect()
}

fn mat(rows: &[&[f32]]) -> Matrix<F> {
    match Matrix::from_rows(rows.iter().map(|r| fs(r)).collect()) {
        Ok(m) => m,
        Err(e) => panic!("bad matrix: {:?}", e),
    }
}

fn column(v: &[f32]) -> Matrix<F> {
    Matrix::from_vector_new(&fs(v)).unwrap()
}

fn values(m: &Matrix<F>) -> Vec<f32> {
    m.to_vector().iter().map(|x| x.0).collect()
}

fn state(n: &NeuralNet<F>) -> Vec<Vec<u32>> {
    let mut out: Vec<Vec<u32>> = [n.ih_weight(), n.ho_weight(), n.h_bias(), n.o_bias()]
        .iter()
        .map(|m| values(m).iter().map(|x| x.to_bits()).collect())
        .collect();
    out.push(vec![n.learning_rate().0.to_bits()]);
    out
}

fn sig(x: f32) -> f32 {
    1.0 / (1.0 + (-x).exp())
}

fn small_net() -> NeuralNet<F> {
    NeuralNet::from_parts(mat(&[&[0.5]]), mat(&[&[-0.3]]), column(&[0.1]), column(&[0.2]), F(0.25)).unwrap()
}

fn xor_examples() -> Vec<(Vec<F>, Vec<F>)> {
    vec![
        (fs(&[0.0, 0.0]), fs(&[0.0])),
        (fs(&[0.0, 1.0]), fs(&[1.0])),
        (fs(&[1.0, 0.0]), fs(&[1.0])),
        (fs(&[1.0, 1.0]), fs(&[0.0])),
    ]
}

#[test]
fn new_network_has_the_requested_sizes() {
    let mut rng = StdRng::seed_from_u64(1);
    let n = NeuralNet::<F>::new(3, 4, 2, F(0.175), &mut rng).unwrap();
    assert_eq!(n.input_size(), 3);
    assert_eq!(n.hidden_size(), 4);
    assert_eq!(n.output_size(), 2);
    assert_eq!((n.ih_weight().rows(), n.ih_weight().cols()), (4, 3));
    assert_eq!((n.ho_weight().rows(), n.ho_weight().cols()), (2, 4));
    assert_eq!((n.h_bias().rows(), n.h_bias().cols()), (4, 1));
    assert_eq!((n.o_bias().rows(), n.o_bias().cols()), (2, 1));
    assert_eq!(n.learning_rate(), F(0.175));
}

#[test]
fn new_network_rejects_non_positive_sizes() {
    let mut rng = StdRng::seed_from_u64(1);
    assert!(matches!(NeuralNet::<F>::new(0, 4, 2, F(0.1), &mut rng), Err(MatrixError::InvalidConstruction)));
    assert!(matches!(NeuralNet::<F>::new(3, -1, 2, F(0.1), &mut rng), Err(MatrixError::InvalidConstruction)));
    assert!(matches!(NeuralNet::<F>::new(3, 4, 0, F(0.1), &mut rng), Err(MatrixError::InvalidConstruction)));
}

#[test]
fn from_parts_checks_shapes() {
    let bad = NeuralNet::from_parts(mat(&[&[0.5, 1.0]]), mat(&[&[-0.3]]), column(&[0.1, 0.2]), column(&[0.2]), F(0.25));
    assert!(matches!(bad, Err(MatrixError::ShapeMismatch)));
}

#[test]
fn feed_forward_computes_both_layers() {
    let n = small_net();
    let out = n.feed_foward(&fs(&[2.0])).unwrap();
    let h = sig((0.0f32 + 0.5 * 2.0) + 0.1);
    let y = sig((0.0f32 + -0.3 * h) + 0.2);
    assert_eq!(out, vec![F(y)]);
}

#[test]
fn feed_forward_rejects_wrong_length() {
    let n = small_net();
    assert_eq!(n.feed_foward(&fs(&[1.0, 2.0])), Err(MatrixError::ShapeMismatch));
    assert_eq!(n.feed_foward(&[]), Err(MatrixError::ShapeMismatch));
}

#[test]
fn calc_layers_check_their_input_shape() {
    let n = small_net();
    assert!(matches!(n.calc_ih(&column(&[1.0, 2.0])), Err(MatrixError::ShapeMismatch)));
    assert!(matches!(n.calc_ho(&mat(&[&[1.0, 2.0]])), Err(MatrixError::ShapeMismatch)));
    let h = n.calc_ih(&column(&[2.0])).unwrap();
    assert_eq!(values(&h), vec![sig((0.0f32 + 0.5 * 2.0) + 0.1)]);
}

#[test]
fn one_training_step_updates_every_matrix() {
    let mut n = small_net();
    n.train(&fs(&[1.0]), &fs(&[1.0])).unwrap();
    let (w1, b1, w2, b2, lr, x, t) = (0.5f32, 0.1f32, -0.3f32, 0.2f32, 0.25f32, 1.0f32, 1.0f32);
    let h = sig((0.0 + w1 * x) + b1);
    let y = sig((0.0 + w2 * h) + b2);
    let eo = t - y;
    let go = ((y * (1.0 - y)) * eo) * lr;
    let eh = 0.0 + w2 * eo;
    let gh = ((h * (1.0 - h)) * eh) * lr;
    assert_eq!(values(n.ho_weight()), vec![w2 + (0.0 + go * h)]);
    assert_eq!(values(n.o_bias()), vec![b2 + go]);
    assert_eq!(values(n.ih_weight()), vec![w1 + (0.0 + gh * x)]);
    assert_eq!(values(n.h_bias()), vec![b1 + gh]);
}

#[test]
fn hidden_error_uses_weights_before_the_update() {
    let mut n = small_net();
    n.train(&fs(&[1.0]), &fs(&[1.0])).unwrap();
    let h = sig(0.5f32 + 0.1);
    let y = sig((0.0f32 + -0.3 * h) + 0.2);
    let eo = 1.0 - y;
    let go = ((y * (1.0 - y)) * eo) * 0.25;
    let updated_w2 = -0.3 + (0.0 + go * h);
    let with_updated = 0.5 + (0.0 + (((h * (1.0 - h)) * (0.0 + updated_w2 * eo)) * 0.25) * 1.0);
    assert_ne!(values(n.ih_weight())[0], with_updated);
}

#[test]
fn training_rejects_wrong_lengths_and_changes_nothing() {
    let mut n = small_net();
    let before = state(&n);
    assert_eq!(n.train(&fs(&[1.0, 2.0]), &fs(&[1.0])), Err(MatrixError::ShapeMismatch));
    assert_eq!(n.train(&fs(&[1.0]), &fs(&[])), Err(MatrixError::ShapeMismatch));
    assert_eq!(state(&n), before);
}

#[test]
fn learning_rate_is_used_verbatim() {
    let mut a = small_net();
    let mut b = small_net();
    a.set_learning_rate(F(0.0));
    assert_eq!(a.learning_rate(), F(0.0));
    let before = state(&a);
    a.train(&fs(&[1.0]), &fs(&[0.0])).unwrap();
    assert_eq!(state(&a), before);
    b.set_learning_rate(F(0.5));
    b.train(&fs(&[1.0]), &fs(&[0.0])).unwrap();
    assert_ne!(state(&b), state(&small_net()));
}

#[test]
fn training_by_positions_matches_single_steps() {
    let mut rng = StdRng::seed_from_u64(3);
    let mut a = NeuralNet::<F>::new(2, 3, 1, F(0.3), &mut rng).unwrap();
    let copy = |m: &Matrix<F>| {
        Matrix::from_rows((0..m.rows()).map(|i| (0..m.cols()).map(|j| m.get(i, j)).collect()).collect()).unwrap()
    };
    let mut b = NeuralNet::from_parts(
        copy(a.ih_weight()),
        copy(a.ho_weight()),
        copy(a.h_bias()),
        copy(a.o_bias()),
        a.learning_rate(),
    )
    .unwrap();
    let ex = xor_examples();
    a.train_on_indices(&ex, &vec![3, 0, 0, 2]).unwrap();
    for k in [3usize, 0, 0, 2] {
        b.train(&ex[k].0, &ex[k].1).unwrap();
    }
    assert_eq!(state(&a), state(&b));
}

#[test]
fn sampled_training_reports_positions_in_range() {
    let mut rng = StdRng::seed_from_u64(11);
    let mut n = NeuralNet::<F>::new(2, 2, 1, F(0.5), &mut rng).unwrap();
    let order = n.train_sampled(&xor_examples(), 200, &mut rng).unwrap();
    assert_eq!(order.len(), 200);
    assert!(order.iter().all(|k| *k < 4));
    assert!((0..4).all(|k| order.contains(&k)));
}

#[test]
fn sampled_training_without_examples_does_nothing() {
    let mut rng = StdRng::seed_from_u64(11);
    let mut n = NeuralNet::<F>::new(2, 2, 1, F(0.5), &mut rng).unwrap();
    let before = state(&n);
    assert_eq!(n.train_sampled(&vec![], 50, &mut rng).unwrap(), Vec::<usize>::new());
    assert_eq!(state(&n), before);
}

#[test]
fn sampled_training_rejects_a_misfit_example() {
    let mut rng = StdRng::seed_from_u64(11);
    let mut n = NeuralNet::<F>::new(2, 2, 1, F(0.5), &mut rng).unwrap();
    let before = state(&n);
    let mut ex = xor_examples();
    ex.push((fs(&[1.0]), fs(&[0.0])));
    assert!(matches!(n.train_sampled(&ex, 50, &mut rng), Err(MatrixError::ShapeMismatch)));
    assert_eq!(state(&n), before);
}

#[test]
fn learns_xor() {
    let mut rng = StdRng::seed_from_u64(2024);
    let mut n = NeuralNet::<F>::new(2, 2, 1, F(0.5), &mut rng).unwrap();
    n.train_sampled(&xor_examples(), 60000, &mut rng).unwrap();
    assert!(n.feed_foward(&fs(&[0.0, 0.0])).unwrap()[0].0 < 0.2);
    assert!(n.feed_foward(&fs(&[1.0, 1.0])).unwrap()[0].0 < 0.2);
    assert!(n.feed_foward(&fs(&[0.0, 1.0])).unwrap()[0].0 > 0.8);
    assert!(n.feed_foward(&fs(&[1.0, 0.0])).unwrap()[0].0 > 0.8);
}

#[test]
fn seeded_runs_are_bit_identical() {
    let run = || {
        let mut rng = StdRng::seed_from_u64(99);
        let mut n = NeuralNet::<F>::new(2, 3, 1, F(0.3), &mut rng).unwrap();
        let order = n.train_sampled(&xor_examples(), 500, &mut rng).unwrap();
        (state(&n), order)
    };
    assert_eq!(run(), run());
}

#[test]
fn network_from_values_reads_them_in_order() {
    let v: Vec<f32> = (1..=13).map(|k| k as f32).collect();
    let n = NeuralNet::from_values(2, 3, 1, F(0.1), &fs(&v)).unwrap();
    assert_eq!(values(n.ih_weight()), vec![1.0, 2.0, 3.0, 4.0, 5.0, 6.0]);
    assert_eq!((n.ih_weight().rows(), n.ih_weight().cols()), (3, 2));
    assert_eq!(values(n.ho_weight()), vec![7.0, 8.0, 9.0]);
    assert_eq!(values(n.h_bias()), vec![10.0, 11.0, 12.0]);
    assert_eq!(values(n.o_bias()), vec![13.0]);
    assert_eq!(n.learning_rate(), F(0.1));
}

#[test]
fn network_from_values_rejects_wrong_counts() {
    assert!(matches!(NeuralNet::from_values(2, 3, 1, F(0.1), &fs(&[0.0; 12])), Err(MatrixError::InvalidConstruction)));
    assert!(matches!(NeuralNet::from_values(2, 0, 1, F(0.1), &fs(&[])), Err(MatrixError::InvalidConstruction)));
}

#[test]
fn new_network_places_its_draws_in_order() {
    let mut rng = StdRng::seed_from_u64(8);
    let n = NeuralNet::<F>::new(2, 3, 2, F(0.2), &mut rng).unwrap();
    let mut again = StdRng::seed_from_u64(8);
    let draws: Vec<F> = (0..(3 * 2 + 2 * 3 + 3 + 2)).map(|_| F::sample_symmetric(&mut again)).collect();
    let placed = NeuralNet::from_values(2, 3, 2, F(0.2), &draws).unwrap();
    assert_eq!(state(&n), state(&placed));
    assert!(state(&n)[..4].iter().flatten().all(|b| {
        let x = f32::from_bits(*b);
        (-1.0..1.0).contains(&x)
    }));
}

#[test]
fn misfit_examples_leave_the_generator_alone() {
    let mut rng = StdRng::seed_from_u64(11);
    let mut n = NeuralNet::<F>::new(2, 2, 1, F(0.5), &mut rng).unwrap();
    let before = rng.clone();
    let mut ex = xor_examples();
    ex.push((fs(&[1.0]), fs(&[0.0])));
    assert!(n.train_sampled(&ex, 50, &mut rng).is_err());
    assert!(rng == before);
}

#[test]
fn training_in_chunks_matches_one_run() {
    let mut rng = StdRng::seed_from_u64(21);
    let mut a = NeuralNet::<F>::new(2, 2, 1, F(0.4), &mut rng).unwrap();
    let mut b = NeuralNet::<F>::from_values(
        2,
        2,
        1,
        F(0.4),
        &[a.ih_weight(), a.ho_weight(), a.h_bias(), a.o_bias()].iter().flat_map(|m| m.to_vector()).collect(),
    )
    .unwrap();
    let ex = xor_examples();
    let mut order = a.train_sampled(&ex, 30, &mut rng).unwrap();
    order.extend(a.train_sampled(&ex, 20, &mut rng).unwrap());
    b.train_on_indices(&ex, &order).unwrap();
    assert_eq!(state(&a), state(&b));
}
