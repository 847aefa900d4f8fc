//! Algebraic facts about the matrix model, proved once for every element type.
use crate::element::Real;
use crate::model::{column, combined, dot_prefix, filled, is_matrix, product, transposed, width, with_scalar, ElementOp};
use crate::network::{placed_network, replay, NetState};
use vstd::prelude::*;

verus! {

/// The product of an `m` by `n` matrix and an `n` by `p` matrix is an `m` by
/// `p` matrix.
pub proof fn lemma_product_shape<T: Real>(a: Seq<Seq<T>>, b: Seq<Seq<T>>)
    requires
        is_matrix(a),
        is_matrix(b),
        width(a) == b.len(),
    ensures
        is_matrix(product(a, b)),
        product(a, b).len() == a.len(),
        width(product(a, b)) == width(b),
{
}

/// Exchanging rows and columns twice gives the matrix back.
pub proof fn lemma_transpose_involution<T>(a: Seq<Seq<T>>)
    requires
        is_matrix(a),
    ensures
        transposed(transposed(a)) == a,
{
    assert(transposed(transposed(a)) =~~= a);
}

/// Each running sum for `a · b` equals the matching running sum for
/// `bᵀ · aᵀ` when multiplication of entries commutes.
proof fn lemma_dot_prefix_transposed<T: Real>(a: Seq<Seq<T>>, b: Seq<Seq<T>>, i: int, j: int, k: int)
    requires
        is_matrix(a),
        is_matrix(b),
        width(a) == b.len(),
        0 <= i < a.len(),
        0 <= j < width(b),
        k <= width(a),
        forall|x: T, y: T| #[trigger] T::mul_spec(x, y) == T::mul_spec(y, x),
    ensures
        dot_prefix(a, b, i, j, k) == dot_prefix(transposed(b), transposed(a), j, i, k),
    decreases k,
{
    if k > 0 {
        lemma_dot_prefix_transposed(a, b, i, j, k - 1);
        assert(transposed(b)[j][k - 1] == b[k - 1][j]);
        assert(transposed(a)[k - 1][i] == a[i][k - 1]);
        assert(T::mul_spec(a[i][k - 1], b[k - 1][j]) == T::mul_spec(b[k - 1][j], a[i][k - 1]));
    }
}

/// `(a · b)ᵀ == bᵀ · aᵀ`, for any entry type whose multiplication commutes.
/// Both sides sum their terms in the same order, so no other law of the
/// entries is needed.
pub proof fn lemma_product_transpose<T: Real>(a: Seq<Seq<T>>, b: Seq<Seq<T>>)
    requires
        is_matrix(a),
        is_matrix(b),
        width(a) == b.len(),
        forall|x: T, y: T| #[trigger] T::mul_spec(x, y) == T::mul_spec(y, x),
    ensures
        transposed(product(a, b)) == product(transposed(b), transposed(a)),
{
    let lhs = transposed(product(a, b));
    let rhs = product(transposed(b), transposed(a));
    assert(lhs.len() == rhs.len());
    assert forall|j: int| 0 <= j < lhs.len() implies #[trigger] lhs[j] =~= rhs[j] by {
        assert forall|i: int| 0 <= i < lhs[j].len() implies lhs[j][i] == rhs[j][i] by {
            lemma_dot_prefix_transposed(a, b, i, j, width(a));
        }
    }
    assert(lhs =~~= rhs);
}

/// Adding the zero matrix of the same shape changes nothing, for any entry
/// type in which zero is a right identity of addition.
pub proof fn lemma_add_zeros<T: Real>(a: Seq<Seq<T>>)
    requires
        is_matrix(a),
        forall|x: T| #[trigger] T::add_spec(x, T::zero_spec()) == x,
    ensures
        combined(a, filled(a.len(), width(a) as nat, T::zero_spec()), ElementOp::Add) == a,
{
    assert(combined(a, filled(a.len(), width(a) as nat, T::zero_spec()), ElementOp::Add) =~~= a);
}

/// Multiplying every entry by one changes nothing, for any entry type in
/// which one is a right identity of multiplication.
pub proof fn lemma_scale_by_one<T: Real>(a: Seq<Seq<T>>)
    requires
        forall|x: T| #[trigger] T::mul_spec(x, T::one_spec()) == x,
    ensures
        with_scalar(a, T::one_spec(), ElementOp::Mul) == a,
{
    assert(with_scalar(a, T::one_spec(), ElementOp::Mul) =~~= a);
}

/// Building a column from values and reading it back row by row gives the
/// same values.
pub proof fn lemma_column_flatten<T>(v: Seq<T>)
    ensures
        column(v).flatten() == v,
    decreases v.len(),
{
    if v.len() > 0 {
        let init = v.drop_last();
        lemma_column_flatten(init);
        assert(column(v) =~= column(init).push(seq![v.last()]));
        column(init).lemma_flatten_push(seq![v.last()]);
        assert(v =~= init + seq![v.last()]);
    } else {
        assert(column(v) =~= Seq::<Seq<T>>::empty());
    }
}

/// Training on the positions `first` and then on `second` gives the same
/// state as training on `first + second` at once.
pub proof fn lemma_replay_in_chunks<T: Real>(
    s: NetState<T>,
    examples: Seq<(Seq<T>, Seq<T>)>,
    first: Seq<usize>,
    second: Seq<usize>,
)
    ensures
        replay(replay(s, examples, first), examples, second) == replay(s, examples, first + second),
    decreases second.len(),
{
    if second.len() == 0 {
        assert(first + second =~= first);
    } else {
        lemma_replay_in_chunks(s, examples, first, second.drop_last());
        assert((first + second).drop_last() =~= first + second.drop_last());
        assert((first + second).last() == second.last());
    }
}

/// Two runs that start from the same drawn values and train on the same
/// positions end in the same state: the result depends on nothing else.
pub proof fn lemma_equal_runs_agree<T: Real>(
    i: nat,
    h: nat,
    o: nat,
    rate: T,
    draws_a: Seq<T>,
    draws_b: Seq<T>,
    examples: Seq<(Seq<T>, Seq<T>)>,
    order_a: Seq<usize>,
    order_b: Seq<usize>,
)
    requires
        draws_a == draws_b,
        order_a == order_b,
    ensures
        replay(placed_network(i, h, o, rate, draws_a), examples, order_a) == replay(
            placed_network(i, h, o, rate, draws_b),
            examples,
            order_b,
        ),
{
}

} // verus!
