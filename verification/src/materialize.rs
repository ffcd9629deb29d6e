//! The entry dispatch: resolves the requested column count and routes the
//! data source to the literal or the file materializer.

use vstd::prelude::*;
use vstd::pervasive::unreached;

use crate::file::{csv_parse, file_outcome, materialize_file};
use crate::literal::{literal_outcome, materialize_literal};
use crate::value::{DataSource, MaterializeError, NodeArguments, ReleaseNode, Tensor, Value};

verus! {

/// Resolves the column count from exactly one of `column_names` and
/// `num_columns`: the length of the names when only names were given — a
/// `ShapeError` unless they form a 1-D array — and the requested count
/// when only a count was given. Supplying both or neither is an
/// `ArgumentError`.
pub fn resolve_num_columns(
    column_names: &Option<Tensor<String>>,
    num_columns: &Option<i64>,
) -> (r: Result<usize, MaterializeError>)
    requires
        num_columns matches Some(n) ==> 0 <= n as int && n as int <= usize::MAX as int,
    ensures
        r is Ok <==> ((column_names matches Some(t) && num_columns is None && t is Vector) || (
        column_names is None && num_columns is Some)),
        (column_names is Some && num_columns is Some) ==> (r matches Err(e) && e
            == MaterializeError::ArgumentError),
        (column_names is None && num_columns is None) ==> (r matches Err(e) && e
            == MaterializeError::ArgumentError),
        column_names matches Some(t) ==> num_columns is None ==> (match t {
            Tensor::Vector(v) => r matches Ok(c) && c == v@.len(),
            _ => r matches Err(e) && e == MaterializeError::ShapeError,
        }),
        column_names is None ==> (num_columns matches Some(n) ==> (r matches Ok(c) && c as int
            == n as int)),
{
    match (column_names, num_columns) {
        (Some(t), None) => match t {
            Tensor::Vector(v) => Ok(v.len()),
            _ => Err(MaterializeError::ShapeError),
        },
        (None, Some(n)) => Ok(*n as usize),
        _ => Err(MaterializeError::ArgumentError),
    }
}

/// The column names handed on to the materializers: the 1-D names array's
/// cells, when names were supplied.
pub open spec fn spec_names(args: NodeArguments) -> Option<Vec<String>> {
    match args.column_names {
        Some(Tensor::Vector(v)) => Some(v),
        _ => None,
    }
}

/// The resolved column count, on arguments that resolve.
pub open spec fn spec_count(args: NodeArguments) -> nat {
    match args.column_names {
        Some(Tensor::Vector(v)) => v@.len(),
        _ => match args.num_columns {
            Some(n) => n as nat,
            None => 0,
        },
    }
}

/// What one whole evaluation must yield, for every argument set and every
/// file content the caller could hand over.
pub open spec fn evaluate_outcome(
    args: NodeArguments,
    file_contents: Option<Vec<u8>>,
    r: Result<ReleaseNode, MaterializeError>,
) -> bool {
    if (args.column_names is Some) == (args.num_columns is Some) {
        r matches Err(e) && e == MaterializeError::ArgumentError
    } else if args.column_names matches Some(t) && !(t is Vector) {
        r matches Err(e) && e == MaterializeError::ShapeError
    } else {
        let n = spec_count(args);
        match args.data_source {
            None => r matches Err(e) && e == MaterializeError::ArgumentError,
            Some(DataSource::Unsupported) => r matches Err(e) && e
                == MaterializeError::UnsupportedError,
            Some(DataSource::Literal(value)) => literal_outcome(value, spec_names(args), n, r),
            Some(DataSource::FilePath(_)) => match file_contents {
                None => r matches Err(e) && e == MaterializeError::NotFoundError,
                Some(bytes) => {
                    &&& r is Ok <==> csv_parse(bytes@) is Ok
                    &&& r matches Err(e) ==> e == MaterializeError::ParseError
                    &&& r matches Ok(node) ==> csv_parse(bytes@) matches Ok(recs) && file_outcome(
                        node,
                        recs,
                        args.skip_row,
                        spec_names(args),
                        n,
                    )
                },
            },
        }
    }
}

/// Evaluates one materialization: resolves the column count from exactly
/// one of `column_names`/`num_columns`, then routes the data source —
/// a literal value to the literal materializer, a file path to the file
/// materializer, anything else to `UnsupportedError`.
///
/// This core performs no I/O itself: for a file-path source the caller
/// hands over the file's contents in `file_contents`, `None` meaning the
/// path could not be opened, which fails with `NotFoundError`.
pub fn evaluate(arguments: NodeArguments, file_contents: Option<Vec<u8>>) -> (r: Result<
    ReleaseNode,
    MaterializeError,
>)
    requires
        arguments.wf(),
    ensures
        evaluate_outcome(arguments, file_contents, r),
{
    let NodeArguments { column_names, num_columns, data_source, skip_row } = arguments;
    let resolved = match resolve_num_columns(&column_names, &num_columns) {
        Ok(c) => c,
        Err(e) => {
            return Err(e);
        },
    };
    let names_vec: Option<Vec<String>> = match column_names {
        Some(t) => match t {
            Tensor::Vector(v) => Some(v),
            _ => unreached(),
        },
        None => None,
    };
    match data_source {
        None => Err(MaterializeError::ArgumentError),
        Some(DataSource::Literal(value)) => materialize_literal(value, names_vec, resolved),
        Some(DataSource::FilePath(_)) => match file_contents {
            None => Err(MaterializeError::NotFoundError),
            Some(bytes) => materialize_file(&bytes, skip_row, names_vec, resolved),
        },
        Some(DataSource::Unsupported) => Err(MaterializeError::UnsupportedError),
    }
}

} // verus!

