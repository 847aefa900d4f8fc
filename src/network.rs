//! The feed-forward network with one hidden layer, and its training by
//! online backpropagation.
use crate::element::Real;
use crate::matrix::{draw_grid, Matrix, MatrixError};
use crate::model::{
    activated, all_in_unit_range, column, combined, is_matrix, lemma_placed_in_unit_range, placed, product,
    sigmoid_slope, slopes, transposed, width,
    with_scalar, ElementOp,
};
use rand::rngs::StdRng;
use rand::Rng;
use vstd::prelude::*;

verus! {

/// The trainable state of a network as values: the two weight matrices, the
/// two bias columns and the learning rate.
#[verifier::ext_equal]
pub struct NetState<T> {
    pub ih: Seq<Seq<T>>,
    pub ho: Seq<Seq<T>>,
    pub hb: Seq<Seq<T>>,
    pub ob: Seq<Seq<T>>,
    pub rate: T,
}

/// The shapes fit together: `ih` is hidden by input, `ho` output by hidden,
/// and the biases are columns of the hidden and output sizes.
pub open spec fn well_shaped<T>(s: NetState<T>) -> bool {
    &&& is_matrix(s.ih)
    &&& is_matrix(s.ho)
    &&& is_matrix(s.hb)
    &&& is_matrix(s.ob)
    &&& width(s.hb) == 1
    &&& width(s.ob) == 1
    &&& s.hb.len() == s.ih.len()
    &&& width(s.ho) == s.ih.len()
    &&& s.ob.len() == s.ho.len()
}

/// The number of inputs.
pub open spec fn input_size<T>(s: NetState<T>) -> int {
    width(s.ih)
}

/// The number of outputs.
pub open spec fn output_size<T>(s: NetState<T>) -> int {
    s.ho.len() as int
}

/// How many values a network with `i` inputs, `h` hidden units and `o`
/// outputs is made of.
pub open spec fn draw_count(i: nat, h: nat, o: nat) -> nat {
    h * i + o * h + h + o
}

/// The state made of `v` read in order: the input-to-hidden weights row by
/// row, then the hidden-to-output weights, the hidden biases and the output
/// biases.
pub open spec fn placed_network<T>(i: nat, h: nat, o: nat, rate: T, v: Seq<T>) -> NetState<T> {
    let a = h * i;
    let b = a + o * h;
    let c = b + h;
    NetState {
        ih: placed(h, i, v.subrange(0, a as int)),
        ho: placed(o, h, v.subrange(a as int, b as int)),
        hb: placed(h, 1, v.subrange(b as int, c as int)),
        ob: placed(o, 1, v.subrange(c as int, (c + o) as int)),
        rate,
    }
}

/// The activated hidden layer for the input column `x`.
pub open spec fn hidden_of<T: Real>(s: NetState<T>, x: Seq<Seq<T>>) -> Seq<Seq<T>> {
    activated(combined(product(s.ih, x), s.hb, ElementOp::Add))
}

/// The activated output layer for the hidden layer `h`.
pub open spec fn output_of<T: Real>(s: NetState<T>, h: Seq<Seq<T>>) -> Seq<Seq<T>> {
    activated(combined(product(s.ho, h), s.ob, ElementOp::Add))
}

/// What the network answers for the input values `x`.
pub open spec fn prediction<T: Real>(s: NetState<T>, x: Seq<T>) -> Seq<T> {
    output_of(s, hidden_of(s, column(x))).flatten()
}

/// The state after one backpropagation step on the input `x` with the
/// target `t`. The hidden error is carried back through the output weights
/// as they stood during the forward pass.
pub open spec fn trained<T: Real>(s: NetState<T>, x: Seq<T>, t: Seq<T>) -> NetState<T> {
    let input = column(x);
    let hidden = hidden_of(s, input);
    let output = output_of(s, hidden);
    let output_error = combined(column(t), output, ElementOp::Sub);
    let output_gradient = with_scalar(combined(slopes(output), output_error, ElementOp::Mul), s.rate, ElementOp::Mul);
    let hidden_error = product(transposed(s.ho), output_error);
    let hidden_gradient = with_scalar(combined(slopes(hidden), hidden_error, ElementOp::Mul), s.rate, ElementOp::Mul);
    NetState {
        ih: combined(s.ih, product(hidden_gradient, transposed(input)), ElementOp::Add),
        ho: combined(s.ho, product(output_gradient, transposed(hidden)), ElementOp::Add),
        hb: combined(s.hb, hidden_gradient, ElementOp::Add),
        ob: combined(s.ob, output_gradient, ElementOp::Add),
        rate: s.rate,
    }
}

/// A list of (input, target) pairs, as values.
pub open spec fn example_views<T>(examples: Seq<(Vec<T>, Vec<T>)>) -> Seq<(Seq<T>, Seq<T>)> {
    examples.map_values(|e: (Vec<T>, Vec<T>)| (e.0@, e.1@))
}

/// Every example fits the network's input and output sizes.
pub open spec fn examples_fit<T>(s: NetState<T>, examples: Seq<(Seq<T>, Seq<T>)>) -> bool {
    forall|k: int|
        0 <= k < examples.len() ==> (#[trigger] examples[k]).0.len() == input_size(s) && examples[k].1.len()
            == output_size(s)
}

/// The state after one training step on each example named by `order`, in
/// that order.
pub open spec fn replay<T: Real>(s: NetState<T>, examples: Seq<(Seq<T>, Seq<T>)>, order: Seq<usize>) -> NetState<T>
    decreases order.len(),
{
    if order.len() == 0 {
        s
    } else {
        let e = examples[order.last() as int];
        trained(replay(s, examples, order.drop_last()), e.0, e.1)
    }
}

/// A network with one hidden layer and logistic activation.
pub struct NeuralNet<T> {
    ih_weight: Matrix<T>,
    ho_weight: Matrix<T>,
    h_bias: Matrix<T>,
    o_bias: Matrix<T>,
    learning_rate: T,
}

impl<T> View for NeuralNet<T> {
    type V = NetState<T>;

    closed spec fn view(&self) -> NetState<T> {
        NetState {
            ih: self.ih_weight@,
            ho: self.ho_weight@,
            hb: self.h_bias@,
            ob: self.o_bias@,
            rate: self.learning_rate,
        }
    }
}

/// The logistic function `1 / (1 + e^-x)`.
pub fn sigmoid<T: Real>(x: T) -> (r: T)
    ensures
        r == T::logistic_spec(x),
{
    x.logistic()
}

/// The slope of the logistic function at the point where it outputs `x`:
/// `x * (1 - x)`.
pub fn d_sigmoid<T: Real>(x: T) -> (r: T)
    ensures
        r == sigmoid_slope(x),
{
    x.times(&T::one().minus(&x))
}

/// A one-hot target of `length` values: one at `position`, zero elsewhere.
pub fn gtvec<T: Real>(length: i32, position: i32) -> (r: Vec<T>)
    ensures
        r@.len() == if length > 0 { length as int } else { 0 },
        forall|i: int|
            0 <= i < r@.len() ==> #[trigger] r@[i] == if i == position {
                T::one_spec()
            } else {
                T::zero_spec()
            },
{
    let mut out: Vec<T> = Vec::new();
    let mut i: i32 = 0;
    while i < length
        invariant
            0 <= i,
            length > 0 ==> i <= length,
            length <= 0 ==> i == 0,
            out@.len() == i,
            forall|k: int|
                0 <= k < i ==> #[trigger] out@[k] == if k == position {
                    T::one_spec()
                } else {
                    T::zero_spec()
                },
        decreases length - i,
    {
        if position != i {
            out.push(T::zero());
        } else {
            out.push(T::one());
        }
        i += 1;
    }
    out
}

/// The logistic function applied to every entry of `m`.
fn activate<T: Real>(m: &mut Matrix<T>)
    requires
        old(m).wf(),
    ensures
        final(m).wf(),
        final(m)@ == activated(old(m)@),
{
    m.map_to_function(sigmoid);
    assert(final(m)@ =~~= activated(old(m)@));
}

/// The slope of the logistic function at every entry of `m`.
fn slopes_of<T: Real>(m: &Matrix<T>) -> (r: Matrix<T>)
    requires
        m.wf(),
    ensures
        r.wf(),
        r@ == slopes(m@),
{
    let r = Matrix::static_map_to_function(m, d_sigmoid);
    assert(r@ =~~= slopes(m@));
    r
}

/// Relies on rand's `Rng::gen_range`: on a non-empty half-open range it
/// returns a value inside the range (it panics only on an empty one).
#[verifier::external_body]
fn draw_index(rng: &mut StdRng, bound: usize) -> (r: usize)
    requires
        bound > 0,
    ensures
        r < bound,
{
    rng.gen_range(0..bound)
}

impl<T: Real> NeuralNet<T> {
    /// The invariant every network keeps: its matrices' shapes fit together.
    pub open spec fn wf(&self) -> bool {
        well_shaped(self@)
    }

    proof fn lemma_fields(&self)
        requires
            self.wf(),
        ensures
            self.ih_weight.wf(),
            self.ho_weight.wf(),
            self.h_bias.wf(),
            self.o_bias.wf(),
            self.ih_weight@ == self@.ih,
            self.ho_weight@ == self@.ho,
            self.h_bias@ == self@.hb,
            self.o_bias@ == self@.ob,
            self.learning_rate == self@.rate,
    {
    }

    /// A network with `i` inputs, `h` hidden units and `o` outputs. All its
    /// weights and biases are drawn with [`Real::sample_symmetric`], in the
    /// order that [`NeuralNet::from_values`] reads them, and placed by it.
    pub fn new(i: i32, h: i32, o: i32, learning_rate: T, rng: &mut StdRng) -> (res: Result<Self, MatrixError>)
        ensures
            match res {
                Ok(n) => i > 0 && h > 0 && o > 0 && n.wf() && input_size(n@) == i && n@.ih.len() == h
                    && output_size(n@) == o && n@.rate == learning_rate && all_in_unit_range(n@.ih)
                    && all_in_unit_range(n@.ho) && all_in_unit_range(n@.hb) && all_in_unit_range(n@.ob),
                Err(e) => !(i > 0 && h > 0 && o > 0) && e == MatrixError::InvalidConstruction,
            },
    {
        if i <= 0 || h <= 0 || o <= 0 {
            return Err(MatrixError::InvalidConstruction);
        }
        let ni = i as usize;
        let nh = h as usize;
        let no = o as usize;
        let mut values: Vec<T> = Vec::new();
        draw_grid(nh, ni, rng, &mut values);
        draw_grid(no, nh, rng, &mut values);
        draw_grid(nh, 1, rng, &mut values);
        draw_grid(no, 1, rng, &mut values);
        let n = match Self::from_values(i, h, o, learning_rate, &values) {
            Ok(n) => n,
            Err(e) => {
                return Err(e);
            },
        };
        proof {
            let v = values@;
            let a = nh * ni;
            let b = a + no * nh;
            let c = b + nh;
            assert forall|k: int| 0 <= k < v.len() implies T::in_unit_range(#[trigger] v[k]) by {}
            lemma_placed_in_unit_range(nh as nat, ni as nat, v.subrange(0, a as int));
            lemma_placed_in_unit_range(no as nat, nh as nat, v.subrange(a as int, b as int));
            lemma_placed_in_unit_range(nh as nat, 1, v.subrange(b as int, c as int));
            lemma_placed_in_unit_range(no as nat, 1, v.subrange(c as int, c + no));
        }
        Ok(n)
    }

    /// The network made of `values` read in order (see [`placed_network`]),
    /// when there are exactly as many as its sizes need and no size is zero
    /// or negative.
    pub fn from_values(i: i32, h: i32, o: i32, learning_rate: T, values: &Vec<T>) -> (res: Result<
        Self,
        MatrixError,
    >)
        ensures
            match res {
                Ok(n) => i > 0 && h > 0 && o > 0 && values@.len() == draw_count(i as nat, h as nat, o as nat)
                    && n.wf() && n@ == placed_network(i as nat, h as nat, o as nat, learning_rate, values@),
                Err(e) => !(i > 0 && h > 0 && o > 0 && values@.len() == draw_count(
                    i as nat,
                    h as nat,
                    o as nat,
                )) && e == MatrixError::InvalidConstruction,
            },
    {
        let len = values.len();
        if i <= 0 || h <= 0 || o <= 0 {
            return Err(MatrixError::InvalidConstruction);
        }
        let ni = i as usize;
        let nh = h as usize;
        let no = o as usize;
        proof {
            assert(nh * ni >= 0 && no * nh >= 0) by (nonlinear_arith)
                requires
                    nh > 0,
                    ni > 0,
                    no > 0,
            ;
        }
        let a = match nh.checked_mul(ni) {
            Some(x) => x,
            None => {
                return Err(MatrixError::InvalidConstruction);
            },
        };
        let ho_count = match no.checked_mul(nh) {
            Some(x) => x,
            None => {
                return Err(MatrixError::InvalidConstruction);
            },
        };
        let b = match a.checked_add(ho_count) {
            Some(x) => x,
            None => {
                return Err(MatrixError::InvalidConstruction);
            },
        };
        let c = match b.checked_add(nh) {
            Some(x) => x,
            None => {
                return Err(MatrixError::InvalidConstruction);
            },
        };
        let total = match c.checked_add(no) {
            Some(x) => x,
            None => {
                return Err(MatrixError::InvalidConstruction);
            },
        };
        if total != len {
            return Err(MatrixError::InvalidConstruction);
        }
        let ih_weight = Matrix::place(nh, ni, values, 0);
        let ho_weight = Matrix::place(no, nh, values, a);
        let h_bias = Matrix::place(nh, 1, values, b);
        let o_bias = Matrix::place(no, 1, values, c);
        let n = NeuralNet { ih_weight, ho_weight, h_bias, o_bias, learning_rate };
        assert(n@ =~= placed_network(i as nat, h as nat, o as nat, learning_rate, values@));
        Ok(n)
    }

    /// A network made of given matrices and learning rate, provided their
    /// shapes fit together.
    pub fn from_parts(
        ih_weight: Matrix<T>,
        ho_weight: Matrix<T>,
        h_bias: Matrix<T>,
        o_bias: Matrix<T>,
        learning_rate: T,
    ) -> (res: Result<Self, MatrixError>)
        requires
            ih_weight.wf(),
            ho_weight.wf(),
            h_bias.wf(),
            o_bias.wf(),
        ensures
            ({
                let s = NetState {
                    ih: ih_weight@,
                    ho: ho_weight@,
                    hb: h_bias@,
                    ob: o_bias@,
                    rate: learning_rate,
                };
                match res {
                    Ok(n) => well_shaped(s) && n@ == s,
                    Err(e) => !well_shaped(s) && e == MatrixError::ShapeMismatch,
                }
            }),
    {
        let hidden = ih_weight.rows();
        if h_bias.cols() != 1 || o_bias.cols() != 1 || h_bias.rows() != hidden || ho_weight.cols() != hidden
            || o_bias.rows() != ho_weight.rows() {
            return Err(MatrixError::ShapeMismatch);
        }
        Ok(NeuralNet { ih_weight, ho_weight, h_bias, o_bias, learning_rate })
    }

    /// The input-to-hidden weights, hidden by input.
    pub fn ih_weight(&self) -> (r: &Matrix<T>)
        requires
            self.wf(),
        ensures
            r.wf(),
            r@ == self@.ih,
    {
        &self.ih_weight
    }

    /// The hidden-to-output weights, output by hidden.
    pub fn ho_weight(&self) -> (r: &Matrix<T>)
        requires
            self.wf(),
        ensures
            r.wf(),
            r@ == self@.ho,
    {
        &self.ho_weight
    }

    /// The hidden biases, one column.
    pub fn h_bias(&self) -> (r: &Matrix<T>)
        requires
            self.wf(),
        ensures
            r.wf(),
            r@ == self@.hb,
    {
        &self.h_bias
    }

    /// The output biases, one column.
    pub fn o_bias(&self) -> (r: &Matrix<T>)
        requires
            self.wf(),
        ensures
            r.wf(),
            r@ == self@.ob,
    {
        &self.o_bias
    }

    /// The learning rate the next training step uses.
    pub fn learning_rate(&self) -> (r: T)
        ensures
            r == self@.rate,
    {
        self.learning_rate
    }

    /// Sets the learning rate; the matrices are not touched.
    pub fn set_learning_rate(&mut self, value: T)
        ensures
            final(self)@ == (NetState { rate: value, ..old(self)@ }),
    {
        self.learning_rate = value;
        assert(final(self)@ =~= (NetState { rate: value, ..old(self)@ }));
    }

    /// The number of inputs.
    pub fn input_size(&self) -> (r: usize)
        requires
            self.wf(),
        ensures
            r == input_size(self@),
    {
        self.ih_weight.cols()
    }

    /// The number of hidden units.
    pub fn hidden_size(&self) -> (r: usize)
        requires
            self.wf(),
        ensures
            r == self@.ih.len(),
    {
        self.ih_weight.rows()
    }

    /// The number of outputs.
    pub fn output_size(&self) -> (r: usize)
        requires
            self.wf(),
        ensures
            r == output_size(self@),
    {
        self.ho_weight.rows()
    }

    /// The activated hidden layer for an input column.
    pub fn calc_ih(&self, m_input_data: &Matrix<T>) -> (res: Result<Matrix<T>, MatrixError>)
        requires
            self.wf(),
            m_input_data.wf(),
        ensures
            match res {
                Ok(m) => m_input_data@.len() == input_size(self@) && width(m_input_data@) == 1 && m.wf()
                    && m@ == hidden_of(self@, m_input_data@),
                Err(e) => !(m_input_data@.len() == input_size(self@) && width(m_input_data@) == 1) && e
                    == MatrixError::ShapeMismatch,
            },
    {
        proof {
            self.lemma_fields();
        }
        if m_input_data.rows() != self.ih_weight.cols() || m_input_data.cols() != 1 {
            return Err(MatrixError::ShapeMismatch);
        }
        let mut m_hidden = match self.ih_weight.dot_product(m_input_data) {
            Ok(m) => m,
            Err(e) => {
                return Err(e);
            },
        };
        match m_hidden.e_add(&self.h_bias) {
            Ok(_) => {},
            Err(e) => {
                return Err(e);
            },
        }
        activate(&mut m_hidden);
        Ok(m_hidden)
    }

    /// The activated output layer for a hidden column.
    pub fn calc_ho(&self, m_hidden: &Matrix<T>) -> (res: Result<Matrix<T>, MatrixError>)
        requires
            self.wf(),
            m_hidden.wf(),
        ensures
            match res {
                Ok(m) => m_hidden@.len() == self@.ih.len() && width(m_hidden@) == 1 && m.wf() && m@
                    == output_of(self@, m_hidden@),
                Err(e) => !(m_hidden@.len() == self@.ih.len() && width(m_hidden@) == 1) && e
                    == MatrixError::ShapeMismatch,
            },
    {
        proof {
            self.lemma_fields();
        }
        if m_hidden.rows() != self.ho_weight.cols() || m_hidden.cols() != 1 {
            return Err(MatrixError::ShapeMismatch);
        }
        let mut m_output = match self.ho_weight.dot_product(m_hidden) {
            Ok(m) => m,
            Err(e) => {
                return Err(e);
            },
        };
        match m_output.e_add(&self.o_bias) {
            Ok(_) => {},
            Err(e) => {
                return Err(e);
            },
        }
        activate(&mut m_output);
        Ok(m_output)
    }

    /// The network's answer for `input_data`, one value per output.
    pub fn feed_foward(&self, input_data: &[T]) -> (res: Result<Vec<T>, MatrixError>)
        requires
            self.wf(),
        ensures
            match res {
                Ok(v) => input_data@.len() == input_size(self@) && v@ == prediction(self@, input_data@),
                Err(e) => input_data@.len() != input_size(self@) && e == MatrixError::ShapeMismatch,
            },
    {
        if input_data.len() != self.input_size() {
            return Err(MatrixError::ShapeMismatch);
        }
        let m_input_data = match Matrix::from_vector_new(input_data) {
            Ok(m) => m,
            Err(e) => {
                return Err(e);
            },
        };
        let m_hidden = match self.calc_ih(&m_input_data) {
            Ok(m) => m,
            Err(e) => {
                return Err(e);
            },
        };
        let m_output = match self.calc_ho(&m_hidden) {
            Ok(m) => m,
            Err(e) => {
                return Err(e);
            },
        };
        Ok(m_output.to_vector())
    }

    /// One step of online gradient descent on a single example: the forward
    /// pass, the output and hidden errors, and the update of all four
    /// matrices. The lengths are checked before any work; on a mismatch
    /// nothing changes.
    pub fn train(&mut self, input_data: &[T], target_data: &[T]) -> (res: Result<(), MatrixError>)
        requires
            old(self).wf(),
        ensures
            final(self).wf(),
            match res {
                Ok(_) => input_data@.len() == input_size(old(self)@) && target_data@.len() == output_size(
                    old(self)@,
                ) && final(self)@ == trained(old(self)@, input_data@, target_data@),
                Err(e) => !(input_data@.len() == input_size(old(self)@) && target_data@.len()
                    == output_size(old(self)@)) && e == MatrixError::ShapeMismatch && final(self)@ == old(
                    self,
                )@,
            },
    {
        proof {
            self.lemma_fields();
        }
        if input_data.len() != self.input_size() || target_data.len() != self.output_size() {
            return Err(MatrixError::ShapeMismatch);
        }
        let ghost s = self@;
        let m_input_data = match Matrix::from_vector_new(input_data) {
            Ok(m) => m,
            Err(e) => {
                return Err(e);
            },
        };
        let m_hidden = match self.calc_ih(&m_input_data) {
            Ok(m) => m,
            Err(e) => {
                return Err(e);
            },
        };
        let output_data = match self.calc_ho(&m_hidden) {
            Ok(m) => m,
            Err(e) => {
                return Err(e);
            },
        };
        let mut err_output = match Matrix::from_vector_new(target_data) {
            Ok(m) => m,
            Err(e) => {
                return Err(e);
            },
        };
        match err_output.e_sub(&output_data) {
            Ok(_) => {},
            Err(e) => {
                return Err(e);
            },
        }
        let mut o_gradient = slopes_of(&output_data);
        match o_gradient.e_mult(&err_output) {
            Ok(_) => {},
            Err(e) => {
                return Err(e);
            },
        }
        o_gradient.s_mult(self.learning_rate);
        let ho_dweights = match o_gradient.dot_product(&m_hidden.transpose()) {
            Ok(m) => m,
            Err(e) => {
                return Err(e);
            },
        };
        // The hidden error goes back through the weights of the forward pass.
        let err_hidden = match self.ho_weight.transpose().dot_product(&err_output) {
            Ok(m) => m,
            Err(e) => {
                return Err(e);
            },
        };
        let mut h_gradient = slopes_of(&m_hidden);
        match h_gradient.e_mult(&err_hidden) {
            Ok(_) => {},
            Err(e) => {
                return Err(e);
            },
        }
        h_gradient.s_mult(self.learning_rate);
        let ih_dweights = match h_gradient.dot_product(&m_input_data.transpose()) {
            Ok(m) => m,
            Err(e) => {
                return Err(e);
            },
        };
        // Every shape was fixed by the check above: none of these can fail.
        let _ = self.ho_weight.e_add(&ho_dweights);
        let _ = self.o_bias.e_add(&o_gradient);
        let _ = self.ih_weight.e_add(&ih_dweights);
        let _ = self.h_bias.e_add(&h_gradient);
        assert(self@ =~= trained(s, input_data@, target_data@));
        Ok(())
    }

    /// Whether every example fits the network's input and output sizes.
    pub fn examples_fit(&self, examples: &Vec<(Vec<T>, Vec<T>)>) -> (r: bool)
        requires
            self.wf(),
        ensures
            r == examples_fit(self@, example_views(examples@)),
    {
        let ghost ev = example_views(examples@);
        let n_in = self.input_size();
        let n_out = self.output_size();
        let mut k: usize = 0;
        while k < examples.len()
            invariant
                n_in == input_size(self@),
                n_out == output_size(self@),
                ev == example_views(examples@),
                ev.len() == examples@.len(),
                k <= examples@.len(),
                forall|j: int| 0 <= j < k ==> (#[trigger] ev[j]).0.len() == n_in && ev[j].1.len() == n_out,
            decreases examples@.len() - k,
        {
            if examples[k].0.len() != n_in || examples[k].1.len() != n_out {
                assert(ev[k as int] == (examples@[k as int].0@, examples@[k as int].1@));
                return false;
            }
            assert(ev[k as int] == (examples@[k as int].0@, examples@[k as int].1@));
            k += 1;
        }
        true
    }

    /// One training step on each example named by `order`, in that order.
    /// The examples are all checked before any step; if one does not fit,
    /// nothing changes.
    pub fn train_on_indices(&mut self, examples: &Vec<(Vec<T>, Vec<T>)>, order: &Vec<usize>) -> (res: Result<
        (),
        MatrixError,
    >)
        requires
            old(self).wf(),
            forall|k: int| 0 <= k < order@.len() ==> #[trigger] order@[k] < examples@.len(),
        ensures
            final(self).wf(),
            match res {
                Ok(_) => examples_fit(old(self)@, example_views(examples@)) && final(self)@ == replay(
                    old(self)@,
                    example_views(examples@),
                    order@,
                ),
                Err(e) => !examples_fit(old(self)@, example_views(examples@)) && e == MatrixError::ShapeMismatch
                    && final(self)@ == old(self)@,
            },
    {
        if !self.examples_fit(examples) {
            return Err(MatrixError::ShapeMismatch);
        }
        let ghost s0 = self@;
        let ghost ev = example_views(examples@);
        let mut t: usize = 0;
        while t < order.len()
            invariant
                self.wf(),
                ev == example_views(examples@),
                ev.len() == examples@.len(),
                examples_fit(s0, ev),
                input_size(self@) == input_size(s0),
                output_size(self@) == output_size(s0),
                forall|k: int| 0 <= k < order@.len() ==> #[trigger] order@[k] < examples@.len(),
                t <= order@.len(),
                self@ == replay(s0, ev, order@.take(t as int)),
            decreases order@.len() - t,
        {
            let idx = order[t];
            assert(ev[idx as int] == (examples@[idx as int].0@, examples@[idx as int].1@));
            let _ = self.train(examples[idx].0.as_slice(), examples[idx].1.as_slice());
            assert(order@.take(t + 1).drop_last() =~= order@.take(t as int));
            t += 1;
        }
        assert(order@.take(order@.len() as int) =~= order@);
        Ok(())
    }

    /// `steps` training steps, each on an example picked uniformly at random
    /// with `rng`; none when there are no examples. Returns the positions of
    /// the examples picked, in the order they were used. The examples are
    /// checked before anything is drawn: if one does not fit, neither the
    /// network nor `rng` changes.
    pub fn train_sampled(&mut self, examples: &Vec<(Vec<T>, Vec<T>)>, steps: usize, rng: &mut StdRng) -> (res:
        Result<Vec<usize>, MatrixError>)
        requires
            old(self).wf(),
        ensures
            final(self).wf(),
            match res {
                Ok(order) => examples_fit(old(self)@, example_views(examples@)) && order@.len() == (if examples@.len()
                    == 0 {
                    0
                } else {
                    steps as int
                }) && (forall|k: int| 0 <= k < order@.len() ==> #[trigger] order@[k] < examples@.len())
                    && final(self)@ == replay(old(self)@, example_views(examples@), order@),
                Err(e) => !examples_fit(old(self)@, example_views(examples@)) && e == MatrixError::ShapeMismatch
                    && final(self)@ == old(self)@ && *final(rng) == *old(rng),
            },
    {
        if !self.examples_fit(examples) {
            return Err(MatrixError::ShapeMismatch);
        }
        let mut order: Vec<usize> = Vec::new();
        if examples.len() > 0 {
            let mut t: usize = 0;
            while t < steps
                invariant
                    examples@.len() > 0,
                    t <= steps,
                    order@.len() == t,
                    forall|k: int| 0 <= k < order@.len() ==> #[trigger] order@[k] < examples@.len(),
                decreases steps - t,
            {
                order.push(draw_index(rng, examples.len()));
                t += 1;
            }
        }
        match self.train_on_indices(examples, &order) {
            Ok(_) => Ok(order),
            Err(e) => Err(e),
        }
    }
}

} // verus!
