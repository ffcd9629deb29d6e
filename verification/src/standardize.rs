//! The column standardizer: forces a tensor to an exact column count by
//! appending default-valued columns or selecting a prefix of the columns.

use vstd::prelude::*;

use crate::value::{lemma_push_deep_view, ColMatrix, Elem, MaterializeError, Tensor, TensorModel};

verus! {

/// A column of `rows` filler cells.
pub open spec fn default_column<V>(rows: nat, dflt: V) -> Seq<V> {
    Seq::new(rows, |i: int| dflt)
}

/// `count` filler columns of `rows` cells each.
pub open spec fn filler_cols<V>(rows: nat, count: nat, dflt: V) -> Seq<Seq<V>> {
    Seq::new(count, |j: int| default_column(rows, dflt))
}

/// What standardizing to `target` columns yields, on the tensor's model.
///
/// A scalar is rejected. A vector stands for one column: `target == 1`
/// leaves it untouched, `target == 0` empties it into a matrix of no
/// columns, and `target > 1` sets a filler block of `target` whole columns
/// beside the original column — `target + 1` columns in all, a quirk of
/// this operation's long-standing sizing that downstream consumers rely
/// on, kept deliberately and pinned by the tests. A matrix is padded with
/// filler columns or cut to its first `target` columns.
pub open spec fn standardize_model<V>(t: TensorModel<V>, target: nat, dflt: V) -> Result<
    TensorModel<V>,
    MaterializeError,
> {
    match t {
        TensorModel::Scalar(_) => Err(MaterializeError::ShapeError),
        TensorModel::Vector(v) => if target == 0 {
            Ok(TensorModel::Matrix { rows: v.len(), cols: Seq::empty() })
        } else if target == 1 {
            Ok(TensorModel::Vector(v))
        } else {
            Ok(
                TensorModel::Matrix {
                    rows: v.len(),
                    cols: seq![v] + filler_cols(v.len(), target, dflt),
                },
            )
        },
        TensorModel::Matrix { rows, cols } => if cols.len() < target {
            Ok(
                TensorModel::Matrix {
                    rows,
                    cols: cols + filler_cols(rows, (target - cols.len()) as nat, dflt),
                },
            )
        } else if cols.len() == target {
            Ok(TensorModel::Matrix { rows, cols })
        } else {
            Ok(TensorModel::Matrix { rows, cols: cols.take(target as int) })
        },
    }
}

/// Law: standardizing a matrix of more than `target` columns selects
/// exactly the first `target` columns, in their original order and with
/// their original values — no reordering, no value mutation.
pub proof fn lemma_standardize_selects_prefix<V>(t: TensorModel<V>, target: nat, dflt: V)
    requires
        t matches TensorModel::Matrix { rows, cols } && cols.len() > target,
    ensures
        standardize_model(t, target, dflt) matches Ok(out) && out matches TensorModel::Matrix {
            rows: out_rows,
            cols: out_cols,
        } && out_rows == t->rows && out_cols.len() == target && (forall|j: int|
            0 <= j < target ==> out_cols[j] == t->cols[j]),
{
}

/// Law: standardizing a matrix of fewer than `target` columns keeps the
/// original columns unchanged as a prefix and appends only columns whose
/// every cell is the kind's default value.
pub proof fn lemma_standardize_pads<V>(t: TensorModel<V>, target: nat, dflt: V)
    requires
        t matches TensorModel::Matrix { rows, cols } && cols.len() < target,
    ensures
        standardize_model(t, target, dflt) matches Ok(out) && out matches TensorModel::Matrix {
            rows: out_rows,
            cols: out_cols,
        } && out_rows == t->rows && out_cols.len() == target && (forall|j: int|
            0 <= j < t->cols.len() ==> out_cols[j] == t->cols[j]) && (forall|j: int|
            t->cols.len() <= j < target ==> (#[trigger] out_cols[j]).len() == t->rows && forall|
                i: int,
            |
                0 <= i < out_cols[j].len() ==> out_cols[j][i] == dflt),
{
    let out_cols = standardize_model(t, target, dflt)->Ok_0->cols;
    assert(forall|j: int|
        t->cols.len() <= j < target ==> #[trigger] out_cols[j] == default_column(t->rows, dflt));
}

/// Law: a matrix already of `target` columns passes through untouched.
pub proof fn lemma_standardize_noop<V>(t: TensorModel<V>, target: nat, dflt: V)
    requires
        t matches TensorModel::Matrix { rows, cols } && cols.len() == target,
    ensures
        standardize_model(t, target, dflt) == Ok::<TensorModel<V>, MaterializeError>(t),
{
}

/// One filler column of `rows` default-valued cells.
fn make_default_column<T: Elem>(rows: usize) -> (r: Vec<T>)
    ensures
        r.deep_view() == default_column::<T::V>(rows as nat, T::default_model()),
{
    let mut col: Vec<T> = Vec::new();
    for i in 0..rows
        invariant
            col.deep_view() =~= default_column::<T::V>(i as nat, T::default_model()),
    {
        let ghost pre = col;
        col.push(T::default_value());
        proof {
            lemma_push_deep_view(pre, col, col@.last());
            assert(col.deep_view() =~= default_column::<T::V>(
                (i + 1) as nat,
                T::default_model(),
            ));
        }
    }
    proof {
        assert(col.deep_view() =~= default_column::<T::V>(rows as nat, T::default_model()));
    }
    col
}

/// Appends `count` filler columns of `rows` cells to `cols`.
fn append_filler_cols<T: Elem>(cols: &mut Vec<Vec<T>>, rows: usize, count: usize)
    ensures
        final(cols).deep_view() == old(cols).deep_view() + filler_cols::<T::V>(
            rows as nat,
            count as nat,
            T::default_model(),
        ),
{
    for c in 0..count
        invariant
            cols.deep_view() =~= old(cols).deep_view() + filler_cols::<T::V>(
                rows as nat,
                c as nat,
                T::default_model(),
            ),
    {
        let ghost pre = *cols;
        cols.push(make_default_column::<T>(rows));
        proof {
            lemma_push_deep_view(pre, *cols, cols@.last());
            assert(cols.deep_view() =~= old(cols).deep_view() + filler_cols::<T::V>(
                rows as nat,
                (c + 1) as nat,
                T::default_model(),
            ));
        }
    }
    proof {
        assert(cols.deep_view() =~= old(cols).deep_view() + filler_cols::<T::V>(
            rows as nat,
            count as nat,
            T::default_model(),
        ));
    }
}

/// Forces `array` to the `target` column count: pads a narrow tensor with
/// default-valued columns, keeps an exact fit untouched — by value — and
/// selects the first `target` columns of a wide one. A scalar dataset is
/// rejected with `ShapeError`, and nothing else fails.
pub fn standardize_columns<T: Elem>(array: Tensor<T>, target: usize) -> (r: Result<
    Tensor<T>,
    MaterializeError,
>)
    requires
        array.wf(),
    ensures
        r is Ok <==> !(array is Scalar),
        r matches Err(e) ==> e == MaterializeError::ShapeError,
        r matches Ok(out) ==> standardize_model(
            array.model(),
            target as nat,
            T::default_model(),
        ) matches Ok(m) && out.model() == m && out.wf(),
        (array matches Tensor::Matrix(m) && m.cols@.len() == target) ==> (r matches Ok(out) && out
            == array),
        (array matches Tensor::Vector(v) && target == 1) ==> (r matches Ok(out) && out == array),
{
    match array {
        Tensor::Scalar(_) => Err(MaterializeError::ShapeError),
        Tensor::Vector(v) => {
            if target == 0 {
                let rows = v.len();
                let empty: Vec<Vec<T>> = Vec::new();
                proof {
                    assert(empty.deep_view() =~= Seq::<Seq<T::V>>::empty());
                }
                Ok(Tensor::Matrix(ColMatrix { rows, cols: empty }))
            } else if target == 1 {
                Ok(Tensor::Vector(v))
            } else {
                let rows = v.len();
                let mut cols: Vec<Vec<T>> = Vec::new();
                let ghost empty_cols = cols;
                cols.push(v);
                proof {
                    lemma_push_deep_view(empty_cols, cols, cols@.last());
                }
                let ghost first = cols;
                append_filler_cols::<T>(&mut cols, rows, target);
                let out = Tensor::Matrix(ColMatrix { rows, cols });
                proof {
                    assert(first.deep_view() =~= seq![v.deep_view()]);
                    assert(out.model() matches TensorModel::Matrix { rows: r0, cols: c0 }
                        && r0 == rows as nat && c0 =~= seq![v.deep_view()] + filler_cols::<T::V>(
                        rows as nat,
                        target as nat,
                        T::default_model(),
                    ));
                    assert(out.wf());
                }
                Ok(out)
            }
        },
        Tensor::Matrix(m) => {
            let cols_len = m.cols.len();
            if cols_len < target {
                let rows = m.rows;
                let mut cols = m.cols;
                append_filler_cols::<T>(&mut cols, rows, target - cols_len);
                let out = Tensor::Matrix(ColMatrix { rows, cols });
                proof {
                    assert(cols.deep_view() =~= m.cols.deep_view() + filler_cols::<T::V>(
                        rows as nat,
                        (target - m.cols.deep_view().len()) as nat,
                        T::default_model(),
                    ));
                    assert(out.wf());
                }
                Ok(out)
            } else if cols_len == target {
                Ok(Tensor::Matrix(m))
            } else {
                let mut cols = m.cols;
                let ghost pre = cols;
                cols.truncate(target);
                let out = Tensor::Matrix(ColMatrix { rows: m.rows, cols });
                proof {
                    assert(cols.deep_view() =~= pre.deep_view().take(target as int));
                    assert(out.wf());
                }
                Ok(out)
            }
        },
    }
}

} // verus!
