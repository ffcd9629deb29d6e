//! The literal materializer: standardizes an already-decoded tensor and,
//! when column names were supplied, splits it into one named 1-D column
//! per name.

use vstd::prelude::*;

use crate::maps::{str_assoc_map, str_keys_unique, str_map_insert};
use crate::standardize::{standardize_columns, standardize_model};
use crate::value::{
    lemma_push_deep_view, Array, Elem, Hashmap, MaterializeError, ReleaseNode, Tensor, Value,
};

verus! {

/// No two names alike.
pub open spec fn seq_distinct(names: Seq<Seq<char>>) -> bool {
    forall|i: int, j: int| 0 <= i < j < names.len() ==> names[i] != names[j]
}

/// The name-to-column map built by pairing `names[i]` with `cols[i]`, a
/// later pair winning over an earlier one with an equal name.
pub open spec fn named_map<V>(names: Seq<Seq<char>>, cols: Seq<Seq<V>>) -> Map<Seq<char>, Seq<V>>
    recommends
        names.len() == cols.len(),
    decreases names.len(),
{
    if names.len() <= 0 {
        Map::empty()
    } else {
        named_map(names.drop_last(), cols.drop_last()).insert(names.last(), cols.last())
    }
}

/// A name is in the map exactly when some pair carries it.
pub proof fn lemma_named_map_dom<V>(names: Seq<Seq<char>>, cols: Seq<Seq<V>>, k: Seq<char>)
    ensures
        named_map(names, cols).contains_key(k) <==> exists|i: int|
            0 <= i < names.len() && names[i] == k,
    decreases names.len(),
{
    if names.len() > 0 {
        lemma_named_map_dom(names.drop_last(), cols.drop_last(), k);
        if names.last() != k && (exists|i: int| 0 <= i < names.len() && names[i] == k) {
            let i = choose|i: int| 0 <= i < names.len() && names[i] == k;
            assert(names.drop_last()[i] == names[i]);
        }
    }
}

/// The entry list realizes the model map `m`: keys pairwise distinct, the
/// same key set, and each entry a 1-D column of this kind holding exactly
/// what `m` gives its key.
pub open spec fn entries_match_map<T: Elem>(
    entries: Seq<(String, Value)>,
    m: Map<Seq<char>, Seq<T::V>>,
) -> bool {
    &&& str_keys_unique(entries)
    &&& str_assoc_map(entries).dom() == m.dom()
    &&& forall|i: int|
        0 <= i < entries.len() ==> m.contains_key((#[trigger] entries[i]).0@) && T::is_column(
            entries[i].1,
            m[entries[i].0@],
        )
}

/// The result is a string-keyed column map realizing `m`.
pub open spec fn is_named_columns<T: Elem>(v: Value, m: Map<Seq<char>, Seq<T::V>>) -> bool {
    v matches Value::Hashmap(Hashmap::Str(entries)) && entries_match_map::<T>(entries@, m)
}

/// With pairwise distinct names the result map is pinned entry by entry:
/// entry `i` carries `names[i]` and exactly the column `cols[i]`.
pub open spec fn named_pointwise<T: Elem>(
    v: Value,
    names: Seq<String>,
    cols: Seq<Seq<T::V>>,
) -> bool {
    v matches Value::Hashmap(Hashmap::Str(entries)) && entries@.len() == names.len() && forall|
        i: int,
    |
        0 <= i < names.len() ==> (#[trigger] entries@[i]).0 == names[i] && T::is_column(
            entries@[i].1,
            cols[i],
        )
}

/// The columns of a tensor, a vector handed over as its single column.
fn tensor_into_cols<T: Elem>(t: Tensor<T>) -> (r: Vec<Vec<T>>)
    ensures
        r.deep_view() == t.model().col_seq(),
{
    match t {
        Tensor::Scalar(_) => {
            let empty: Vec<Vec<T>> = Vec::new();
            proof {
                assert(empty.deep_view() =~= Seq::<Seq<T::V>>::empty());
            }
            empty
        },
        Tensor::Vector(v) => {
            let mut one: Vec<Vec<T>> = Vec::new();
            let ghost none = one;
            one.push(v);
            proof {
                lemma_push_deep_view(none, one, one@.last());
                assert(one.deep_view() =~= seq![v.deep_view()]);
            }
            one
        },
        Tensor::Matrix(m) => m.cols,
    }
}

/// Extracts one 1-D column per name, in the names' order, pairing
/// `names[idx]` with column `idx`. Fails with `IndexError` exactly when
/// the names outnumber the columns.
pub(crate) fn split_named_columns<T: Elem>(cols: Vec<Vec<T>>, names: Vec<String>) -> (r: Result<
    Vec<(String, Value)>,
    MaterializeError,
>)
    ensures
        r is Ok <==> names@.len() <= cols.deep_view().len(),
        r matches Err(e) ==> e == MaterializeError::IndexError,
        r matches Ok(entries) ==> entries_match_map::<T>(
            entries@,
            named_map(names.deep_view(), cols.deep_view().take(names@.len() as int)),
        ),
        r matches Ok(entries) ==> seq_distinct(names.deep_view()) ==> (entries@.len()
            == names@.len() && forall|i: int|
            0 <= i < names@.len() ==> (#[trigger] entries@[i]).0 == names@[i] && T::is_column(
                entries@[i].1,
                cols.deep_view()[i],
            )),
{
    let ghost names_dv = names.deep_view();
    let ghost colsm = cols.deep_view();
    let n = names.len();
    if n > cols.len() {
        return Err(MaterializeError::IndexError);
    }
    let mut remaining = cols;
    let mut entries: Vec<(String, Value)> = Vec::new();
    for idx in 0..n
        invariant
            n == names@.len(),
            n <= colsm.len(),
            names.deep_view() == names_dv,
            remaining.deep_view() =~= colsm.subrange(idx as int, colsm.len() as int),
            entries_match_map::<T>(
                entries@,
                named_map(names_dv.take(idx as int), colsm.take(idx as int)),
            ),
            seq_distinct(names_dv) ==> (entries@.len() == idx && forall|i: int|
                0 <= i < idx ==> (#[trigger] entries@[i]).0 == names@[i] && T::is_column(
                    entries@[i].1,
                    colsm[i],
                )),
    {
        let ghost pm = named_map(names_dv.take(idx as int), colsm.take(idx as int));
        let ghost pm2 = named_map(names_dv.take(idx as int + 1), colsm.take(idx as int + 1));
        let name = names[idx].clone();
        let ghost pre_remaining = remaining;
        proof {
            assert(remaining.deep_view().len() == remaining@.len());
            assert(remaining@.len() == colsm.len() - idx);
        }
        let col = remaining.remove(0);
        proof {
            assert(col.deep_view() == pre_remaining.deep_view()[0]);
            assert(col.deep_view() == colsm[idx as int]);
            assert(remaining@ =~= pre_remaining@.subrange(1, pre_remaining@.len() as int));
            assert forall|p: int| 0 <= p < remaining@.len() implies remaining.deep_view()[p]
                == colsm[idx as int + 1 + p] by {
                assert(remaining.deep_view()[p] == remaining@[p].deep_view());
                assert(remaining@[p] == pre_remaining@[p + 1]);
                assert(pre_remaining.deep_view()[p + 1] == pre_remaining@[p + 1].deep_view());
                assert(pre_remaining.deep_view()[p + 1] == colsm.subrange(
                    idx as int,
                    colsm.len() as int,
                )[p + 1]);
            }
            assert(remaining.deep_view() =~= colsm.subrange(idx as int + 1, colsm.len() as int));
            assert(names_dv.take(idx as int + 1).drop_last() =~= names_dv.take(idx as int));
            assert(colsm.take(idx as int + 1).drop_last() =~= colsm.take(idx as int));
            assert(name@ == names_dv[idx as int]);
            assert(pm2 == pm.insert(names_dv[idx as int], colsm[idx as int]));
        }
        let value = T::wrap_column(col);
        let ghost pre = entries@;
        proof {
            if seq_distinct(names_dv) {
                lemma_named_map_dom(
                    names_dv.take(idx as int),
                    colsm.take(idx as int),
                    names_dv[idx as int],
                );
                assert(forall|i: int|
                    0 <= i < idx ==> names_dv.take(idx as int)[i] == names_dv[i]);
                assert(!pm.contains_key(name@));
            }
        }
        str_map_insert(&mut entries, name, value);
        proof {
            assert(str_assoc_map(entries@).dom() =~= pm2.dom());
            assert forall|i: int| 0 <= i < entries@.len() implies pm2.contains_key(
                (#[trigger] entries@[i]).0@,
            ) && T::is_column(entries@[i].1, pm2[entries@[i].0@]) by {
                if !str_assoc_map(pre).contains_key(name@) {
                    if i < pre.len() {
                        assert(entries@[i] == pre[i]);
                        assert(pre[i].0@ != name@);
                    } else {
                        assert(entries@[i] == (name, value));
                    }
                } else {
                    let j = choose|j: int|
                        0 <= j < pre.len() && pre[j].0@ == name@ && entries@ == pre.update(
                            j,
                            (name, value),
                        );
                    if i != j {
                        assert(entries@[i] == pre[i]);
                        assert(pre[i].0@ != name@);
                    } else {
                        assert(entries@[i] == (name, value));
                    }
                }
            }
            assert(entries_match_map::<T>(entries@, pm2));
            if seq_distinct(names_dv) {
                assert(entries@ == pre.push((name, value)));
                assert(forall|i: int| 0 <= i < idx ==> entries@[i] == pre[i]);
            }
        }
    }
    proof {
        assert(names_dv.take(n as int) =~= names_dv);
    }
    Ok(entries)
}

/// What materializing one kind-tagged literal tensor must yield.
///
/// A scalar is rejected with `ShapeError` before anything else; then the
/// standardized tensor is returned bare when no names were supplied, and
/// split into the named column map otherwise, `IndexError` marking names
/// that outnumber the actual columns.
pub open spec fn kind_literal_outcome<T: Elem>(
    t: Tensor<T>,
    names: Option<Vec<String>>,
    n: nat,
    r: Result<ReleaseNode, MaterializeError>,
) -> bool {
    match standardize_model(t.model(), n, T::default_model()) {
        Err(e) => r matches Err(e2) && e2 == e,
        Ok(m) => match names {
            None => r matches Ok(node) && node.value matches Value::Array(a) && a.model()
                == T::wrap_tensor_model(m) && a.wf(),
            Some(ns) => if ns@.len() > m.num_cols() {
                r matches Err(e2) && e2 == MaterializeError::IndexError
            } else {
                r matches Ok(node) && is_named_columns::<T>(
                    node.value,
                    named_map(ns.deep_view(), m.col_seq().take(ns@.len() as int)),
                ) && (seq_distinct(ns.deep_view()) ==> named_pointwise::<T>(
                    node.value,
                    ns@,
                    m.col_seq(),
                ))
            },
        },
    }
}

fn materialize_kind<T: Elem>(t: Tensor<T>, names: Option<Vec<String>>, n: usize) -> (r: Result<
    ReleaseNode,
    MaterializeError,
>)
    requires
        t.wf(),
    ensures
        kind_literal_outcome::<T>(t, names, n as nat, r),
{
    match standardize_columns::<T>(t, n) {
        Err(e) => Err(e),
        Ok(std) => match names {
            None => Ok(ReleaseNode::new(T::wrap_tensor(std))),
            Some(ns) => {
                let cols = tensor_into_cols::<T>(std);
                match split_named_columns::<T>(cols, ns) {
                    Err(e) => Err(e),
                    Ok(entries) => Ok(ReleaseNode::new(Value::Hashmap(Hashmap::Str(entries)))),
                }
            },
        },
    }
}

/// What materializing a literal payload must yield: a map payload is
/// rejected with `TypeError`; a tensor payload goes by its kind.
pub open spec fn literal_outcome(
    value: Value,
    names: Option<Vec<String>>,
    n: nat,
    r: Result<ReleaseNode, MaterializeError>,
) -> bool {
    match value {
        Value::Hashmap(_) => r matches Err(e) && e == MaterializeError::TypeError,
        Value::Array(Array::F64(t)) => kind_literal_outcome::<u64>(t, names, n, r),
        Value::Array(Array::I64(t)) => kind_literal_outcome::<i64>(t, names, n, r),
        Value::Array(Array::Bool(t)) => kind_literal_outcome::<bool>(t, names, n, r),
        Value::Array(Array::Str(t)) => kind_literal_outcome::<String>(t, names, n, r),
    }
}

/// Materializes an already-decoded literal payload against the resolved
/// column count, splitting it into named columns when names were supplied.
pub fn materialize_literal(
    value: Value,
    column_names: Option<Vec<String>>,
    num_columns: usize,
) -> (r: Result<ReleaseNode, MaterializeError>)
    requires
        value matches Value::Array(a) ==> a.wf(),
    ensures
        literal_outcome(value, column_names, num_columns as nat, r),
{
    match value {
        Value::Hashmap(_) => Err(MaterializeError::TypeError),
        Value::Array(arr) => match arr {
            Array::F64(t) => materialize_kind::<u64>(t, column_names, num_columns),
            Array::I64(t) => materialize_kind::<i64>(t, column_names, num_columns),
            Array::Bool(t) => materialize_kind::<bool>(t, column_names, num_columns),
            Array::Str(t) => materialize_kind::<String>(t, column_names, num_columns),
        },
    }
}

} // verus!
