use materialize::file::{materialize_file, materialize_file_records};
use materialize::materialize::evaluate;
use materialize::value::{
    Array, DataSource, Hashmap, MaterializeError, NodeArguments, Tensor, Value,
};

fn file_args(
    column_names: Option<Tensor<String>>,
    num_columns: Option<i64>,
    skip_row: bool,
) -> NodeArguments {
    NodeArguments {
        column_names,
        num_columns,
        data_source: Some(DataSource::FilePath("dataset.csv".to_string())),
        skip_row,
    }
}

fn names(list: &[&str]) -> Tensor<String> {
    Tensor::Vector(list.iter().map(|s| s.to_string()).collect())
}

fn str_column(list: &[&str]) -> Value {
    Value::Array(Array::Str(Tensor::Vector(list.iter().map(|s| s.to_string()).collect())))
}

#[test]
fn file_with_names_builds_string_keyed_map() {
    // Rows ["1","2"] and ["3","4"] under names ["a","b"] and no header
    // skip: {"a": ["1","3"], "b": ["2","4"]}.
    let bytes = b"1,2\n3,4\n".to_vec();
    let r = evaluate(file_args(Some(names(&["a", "b"])), None, false), Some(bytes)).unwrap();
    let expected = Value::Hashmap(Hashmap::Str(vec![
        ("a".to_string(), str_column(&["1", "3"])),
        ("b".to_string(), str_column(&["2", "4"])),
    ]));
    assert_eq!(r.value, expected);
}

#[test]
fn file_skip_row_discards_header() {
    let bytes = b"h1,h2\n1,2\n3,4\n".to_vec();
    let r = evaluate(file_args(None, Some(2), true), Some(bytes)).unwrap();
    let expected = Value::Hashmap(Hashmap::I64(vec![
        (0, str_column(&["1", "3"])),
        (1, str_column(&["2", "4"])),
    ]));
    assert_eq!(r.value, expected);
}

#[test]
fn file_without_names_keys_by_position() {
    let bytes = b"1,2\n3,4\n".to_vec();
    let r = evaluate(file_args(None, Some(2), false), Some(bytes)).unwrap();
    let expected = Value::Hashmap(Hashmap::I64(vec![
        (0, str_column(&["1", "3"])),
        (1, str_column(&["2", "4"])),
    ]));
    assert_eq!(r.value, expected);
}

#[test]
fn file_backfills_absent_columns_to_equal_length() {
    // Only the first two of four requested columns ever receive a cell:
    // the last two are backfilled with as many empty strings as the first
    // column holds, so every column ends at equal length.
    let bytes = b"1,2\n3,4\n".to_vec();
    let r = evaluate(file_args(None, Some(4), false), Some(bytes)).unwrap();
    let expected = Value::Hashmap(Hashmap::I64(vec![
        (0, str_column(&["1", "3"])),
        (1, str_column(&["2", "4"])),
        (2, str_column(&["", ""])),
        (3, str_column(&["", ""])),
    ]));
    assert_eq!(r.value, expected);
}

#[test]
fn file_with_no_populated_columns_stays_empty() {
    let bytes = b"".to_vec();
    let r = evaluate(file_args(None, Some(2), false), Some(bytes)).unwrap();
    let expected = Value::Hashmap(Hashmap::I64(vec![
        (0, str_column(&[])),
        (1, str_column(&[])),
    ]));
    assert_eq!(r.value, expected);
}

#[test]
fn file_extra_cells_are_dropped() {
    let bytes = b"1,2,9\n3,4,9\n".to_vec();
    let r = evaluate(file_args(None, Some(2), false), Some(bytes)).unwrap();
    let expected = Value::Hashmap(Hashmap::I64(vec![
        (0, str_column(&["1", "3"])),
        (1, str_column(&["2", "4"])),
    ]));
    assert_eq!(r.value, expected);
}

#[test]
fn file_ragged_records_are_a_parse_error() {
    let bytes = b"1,2\n3\n".to_vec();
    let r = evaluate(file_args(None, Some(2), false), Some(bytes));
    assert_eq!(r, Err(MaterializeError::ParseError));
}

#[test]
fn file_unreadable_path_is_not_found() {
    let r = evaluate(file_args(None, Some(2), false), None);
    assert_eq!(r, Err(MaterializeError::NotFoundError));
}

#[test]
fn file_quoted_cells_are_decoded() {
    // The quoted cell keeps its embedded delimiter, so the reader really
    // decodes the text rather than splitting it blindly.
    let bytes = b"a,\"b,c\"\n".to_vec();
    let r = evaluate(file_args(None, Some(2), false), Some(bytes)).unwrap();
    let expected = Value::Hashmap(Hashmap::I64(vec![
        (0, str_column(&["a"])),
        (1, str_column(&["b,c"])),
    ]));
    assert_eq!(r.value, expected);
}

#[test]
fn file_materialized_twice_gives_identical_values() {
    let bytes = b"1,2\n3,4\n".to_vec();
    let first = materialize_file(&bytes, false, Some(vec!["a".to_string(), "b".to_string()]), 2);
    let second = materialize_file(&bytes, false, Some(vec!["a".to_string(), "b".to_string()]), 2);
    assert_eq!(first.unwrap(), second.unwrap());
}

#[test]
fn records_pair_names_by_position() {
    let records = vec![
        vec!["1".to_string(), "2".to_string()],
        vec!["3".to_string(), "4".to_string()],
    ];
    let r = materialize_file_records(records, false, Some(vec!["a".to_string(), "b".to_string()]), 2);
    let expected = Value::Hashmap(Hashmap::Str(vec![
        ("a".to_string(), str_column(&["1", "3"])),
        ("b".to_string(), str_column(&["2", "4"])),
    ]));
    assert_eq!(r.value, expected);
}
