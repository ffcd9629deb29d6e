use materialize::literal::materialize_literal;
use materialize::materialize::{evaluate, resolve_num_columns};
use materialize::value::{
    Array, ColMatrix, DataSource, Hashmap, MaterializeError, NodeArguments, ReleaseNode, Tensor,
    Value,
};

fn args(
    column_names: Option<Tensor<String>>,
    num_columns: Option<i64>,
    data_source: Option<DataSource>,
    skip_row: bool,
) -> NodeArguments {
    NodeArguments { column_names, num_columns, data_source, skip_row }
}

fn names(list: &[&str]) -> Tensor<String> {
    Tensor::Vector(list.iter().map(|s| s.to_string()).collect())
}

fn str_vec(list: &[&str]) -> Vec<String> {
    list.iter().map(|s| s.to_string()).collect()
}

fn i64_matrix(rows: usize, cols: Vec<Vec<i64>>) -> Tensor<i64> {
    Tensor::Matrix(ColMatrix { rows, cols })
}

#[test]
fn resolve_rejects_both_given() {
    let r = resolve_num_columns(&Some(names(&["a"])), &Some(1));
    assert_eq!(r, Err(MaterializeError::ArgumentError));
}

#[test]
fn resolve_rejects_neither_given() {
    let r = resolve_num_columns(&None, &None);
    assert_eq!(r, Err(MaterializeError::ArgumentError));
}

#[test]
fn resolve_takes_name_count() {
    let r = resolve_num_columns(&Some(names(&["a", "b", "c"])), &None);
    assert_eq!(r, Ok(3));
}

#[test]
fn resolve_takes_explicit_count() {
    let r = resolve_num_columns(&None, &Some(7));
    assert_eq!(r, Ok(7));
}

#[test]
fn resolve_rejects_two_dimensional_names() {
    let two_d = Tensor::Matrix(ColMatrix {
        rows: 1,
        cols: vec![str_vec(&["a"]), str_vec(&["b"])],
    });
    let r = resolve_num_columns(&Some(two_d), &None);
    assert_eq!(r, Err(MaterializeError::ShapeError));
}

#[test]
fn evaluate_rejects_both_names_and_count() {
    let source = DataSource::Literal(Value::Array(Array::I64(i64_matrix(1, vec![vec![1]]))));
    let r = evaluate(args(Some(names(&["a"])), Some(1), Some(source), false), None);
    assert_eq!(r, Err(MaterializeError::ArgumentError));
}

#[test]
fn evaluate_rejects_missing_data_source() {
    let r = evaluate(args(None, Some(2), None, false), None);
    assert_eq!(r, Err(MaterializeError::ArgumentError));
}

#[test]
fn evaluate_rejects_unsupported_source() {
    let r = evaluate(args(None, Some(2), Some(DataSource::Unsupported), false), None);
    assert_eq!(r, Err(MaterializeError::UnsupportedError));
}

#[test]
fn evaluate_rejects_scalar_dataset() {
    let source = DataSource::Literal(Value::Array(Array::I64(Tensor::Scalar(5))));
    let r = evaluate(args(None, Some(1), Some(source), false), None);
    assert_eq!(r, Err(MaterializeError::ShapeError));
}

#[test]
fn evaluate_rejects_hashmap_literal() {
    let source = DataSource::Literal(Value::Hashmap(Hashmap::Str(vec![])));
    let r = evaluate(args(None, Some(1), Some(source), false), None);
    assert_eq!(r, Err(MaterializeError::TypeError));
}

#[test]
fn literal_pads_integer_matrix_to_three_columns() {
    // A 2x2 integer tensor (rows (1, 2) and (3, 4)) under num_columns = 3:
    // the result is 2x3 and its third column is all zero.
    let tensor = i64_matrix(2, vec![vec![1, 3], vec![2, 4]]);
    let source = DataSource::Literal(Value::Array(Array::I64(tensor)));
    let r = evaluate(args(None, Some(3), Some(source), false), None).unwrap();
    let expected = i64_matrix(2, vec![vec![1, 3], vec![2, 4], vec![0, 0]]);
    assert_eq!(r, ReleaseNode { value: Value::Array(Array::I64(expected)) });
}

#[test]
fn literal_truncates_wide_matrix() {
    let tensor = i64_matrix(2, vec![vec![1, 3], vec![2, 4], vec![5, 6]]);
    let source = DataSource::Literal(Value::Array(Array::I64(tensor)));
    let r = evaluate(args(None, Some(2), Some(source), false), None).unwrap();
    let expected = i64_matrix(2, vec![vec![1, 3], vec![2, 4]]);
    assert_eq!(r.value, Value::Array(Array::I64(expected)));
}

#[test]
fn literal_exact_fit_is_unchanged() {
    let tensor = i64_matrix(2, vec![vec![1, 3], vec![2, 4]]);
    let source = DataSource::Literal(Value::Array(Array::I64(tensor)));
    let r = evaluate(args(None, Some(2), Some(source), false), None).unwrap();
    let expected = i64_matrix(2, vec![vec![1, 3], vec![2, 4]]);
    assert_eq!(r.value, Value::Array(Array::I64(expected)));
}

#[test]
fn literal_vector_with_target_one_is_unchanged() {
    let source = DataSource::Literal(Value::Array(Array::Bool(Tensor::Vector(vec![true, false]))));
    let r = evaluate(args(None, Some(1), Some(source), false), None).unwrap();
    assert_eq!(r.value, Value::Array(Array::Bool(Tensor::Vector(vec![true, false]))));
}

#[test]
fn literal_vector_with_target_zero_empties_columns() {
    let source = DataSource::Literal(Value::Array(Array::I64(Tensor::Vector(vec![9, 9, 9]))));
    let r = evaluate(args(None, Some(0), Some(source), false), None).unwrap();
    assert_eq!(r.value, Value::Array(Array::I64(i64_matrix(3, vec![]))));
}

#[test]
fn literal_vector_filler_block_spans_target_columns() {
    // The filler block beside a vector spans `target` whole columns, so the
    // result carries `target + 1` columns in all -- the deliberate sizing
    // quirk of this operation.
    let source = DataSource::Literal(Value::Array(Array::I64(Tensor::Vector(vec![7, 8]))));
    let r = evaluate(args(None, Some(3), Some(source), false), None).unwrap();
    let expected = i64_matrix(2, vec![vec![7, 8], vec![0, 0], vec![0, 0], vec![0, 0]]);
    assert_eq!(r.value, Value::Array(Array::I64(expected)));
}

#[test]
fn literal_float_bits_pad_with_zero_bits() {
    let bits = vec![(1.5f64).to_bits(), (2.5f64).to_bits()];
    let tensor = Tensor::Matrix(ColMatrix { rows: 2, cols: vec![bits.clone()] });
    let source = DataSource::Literal(Value::Array(Array::F64(tensor)));
    let r = evaluate(args(None, Some(2), Some(source), false), None).unwrap();
    let expected = ColMatrix { rows: 2, cols: vec![bits, vec![(0.0f64).to_bits(); 2]] };
    assert_eq!(r.value, Value::Array(Array::F64(Tensor::Matrix(expected))));
}

#[test]
fn literal_splits_named_columns() {
    let tensor = Tensor::Matrix(ColMatrix {
        rows: 2,
        cols: vec![str_vec(&["x", "y"]), str_vec(&["u", "w"])],
    });
    let source = DataSource::Literal(Value::Array(Array::Str(tensor)));
    let r = evaluate(args(Some(names(&["a", "b"])), None, Some(source), false), None).unwrap();
    let expected = Value::Hashmap(Hashmap::Str(vec![
        ("a".to_string(), Value::Array(Array::Str(Tensor::Vector(str_vec(&["x", "y"]))))),
        ("b".to_string(), Value::Array(Array::Str(Tensor::Vector(str_vec(&["u", "w"]))))),
    ]));
    assert_eq!(r.value, expected);
}

#[test]
fn literal_vector_with_one_name_is_its_own_column() {
    let source = DataSource::Literal(Value::Array(Array::I64(Tensor::Vector(vec![4, 5]))));
    let r = evaluate(args(Some(names(&["only"])), None, Some(source), false), None).unwrap();
    let expected = Value::Hashmap(Hashmap::Str(vec![(
        "only".to_string(),
        Value::Array(Array::I64(Tensor::Vector(vec![4, 5]))),
    )]));
    assert_eq!(r.value, expected);
}

#[test]
fn literal_extraction_past_bound_is_index_error() {
    let value = Value::Array(Array::I64(i64_matrix(2, vec![vec![1, 3], vec![2, 4]])));
    let r = materialize_literal(value, Some(str_vec(&["a", "b", "c"])), 2);
    assert_eq!(r, Err(MaterializeError::IndexError));
}
