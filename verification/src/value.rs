//! The typed value model: tensors of one element kind, tagged values,
//! key-addressed column maps, and the error taxonomy.

use vstd::prelude::*;

verus! {

/// The terminal error kinds of a single materialization.
#[derive(Clone, Copy, Debug, PartialEq, Eq, Structural)]
pub enum MaterializeError {
    /// Neither or both of `column_names`/`num_columns` given, or no data source.
    ArgumentError,
    /// `column_names` not one-dimensional, or a scalar dataset.
    ShapeError,
    /// A literal payload that is not a single tensor.
    TypeError,
    /// The file behind a path source could not be opened.
    NotFoundError,
    /// A text record could not be decoded into cells.
    ParseError,
    /// Column extraction requested beyond the tensor's column bound.
    IndexError,
    /// A data source variant other than literal or file path.
    UnsupportedError,
}

/// A rectangular matrix of `rows` rows, stored one column at a time.
///
/// `cols[j]` holds column `j` from top to bottom, so every column has
/// exactly `rows` entries when the matrix is well-formed. A matrix with
/// zero columns still remembers its row count.
#[derive(Debug, PartialEq)]
pub struct ColMatrix<T> {
    pub rows: usize,
    pub cols: Vec<Vec<T>>,
}

/// A tensor of one element kind: a scalar, a vector (one column of values),
/// or a rectangular matrix.
#[derive(Debug, PartialEq)]
pub enum Tensor<T> {
    Scalar(T),
    Vector(Vec<T>),
    Matrix(ColMatrix<T>),
}

/// The mathematical shape of a [`Tensor`], over the elements' deep views.
pub enum TensorModel<V> {
    Scalar(V),
    Vector(Seq<V>),
    Matrix { rows: nat, cols: Seq<Seq<V>> },
}

impl<V> TensorModel<V> {
    /// Matrices must be rectangular: every column as long as the row count.
    pub open spec fn wf(self) -> bool {
        self matches TensorModel::Matrix { rows, cols } ==> forall|j: int|
            0 <= j < cols.len() ==> (#[trigger] cols[j]).len() == rows
    }

    /// The columns of the tensor, a vector standing for a single column.
    pub open spec fn col_seq(self) -> Seq<Seq<V>> {
        match self {
            TensorModel::Scalar(x) => Seq::empty(),
            TensorModel::Vector(v) => seq![v],
            TensorModel::Matrix { rows: _, cols } => cols,
        }
    }

    /// How many columns the tensor offers for extraction: a vector counts
    /// as one column, a scalar as none.
    pub open spec fn num_cols(self) -> nat {
        self.col_seq().len()
    }
}

impl<T: DeepView> Tensor<T> {
    pub open spec fn model(self) -> TensorModel<T::V> {
        match self {
            Tensor::Scalar(x) => TensorModel::Scalar(x.deep_view()),
            Tensor::Vector(v) => TensorModel::Vector(v.deep_view()),
            Tensor::Matrix(m) => TensorModel::Matrix {
                rows: m.rows as nat,
                cols: m.cols.deep_view(),
            },
        }
    }

    pub open spec fn wf(self) -> bool {
        self.model().wf()
    }
}

/// A tensor tagged with its element kind. All elements of one array share
/// one kind; this core never converts between kinds.
///
/// Floating-point payloads are carried as their raw 64-bit patterns: this
/// core moves, pads and selects dataset cells but never computes with them,
/// and the all-zero pattern stands for the numeric default.
#[derive(Debug, PartialEq)]
pub enum Array {
    F64(Tensor<u64>),
    I64(Tensor<i64>),
    Bool(Tensor<bool>),
    Str(Tensor<String>),
}

/// The mathematical content of an [`Array`].
pub enum ArrayModel {
    F64(TensorModel<u64>),
    I64(TensorModel<i64>),
    Bool(TensorModel<bool>),
    Str(TensorModel<Seq<char>>),
}

impl Array {
    pub open spec fn model(self) -> ArrayModel {
        match self {
            Array::F64(t) => ArrayModel::F64(t.model()),
            Array::I64(t) => ArrayModel::I64(t.model()),
            Array::Bool(t) => ArrayModel::Bool(t.model()),
            Array::Str(t) => ArrayModel::Str(t.model()),
        }
    }

    pub open spec fn wf(self) -> bool {
        match self {
            Array::F64(t) => t.wf(),
            Array::I64(t) => t.wf(),
            Array::Bool(t) => t.wf(),
            Array::Str(t) => t.wf(),
        }
    }
}

/// A single value: either one rectangular tensor or a column map.
#[derive(Debug, PartialEq)]
pub enum Value {
    Array(Array),
    Hashmap(Hashmap),
}

/// A map from a key to a value; the key space is chosen per call site and
/// never mixed within one map. Entries are kept with pairwise distinct
/// keys; lookup is by key only and the entry order carries no meaning.
#[derive(Debug, PartialEq)]
pub enum Hashmap {
    Str(Vec<(String, Value)>),
    I64(Vec<(i64, Value)>),
}

/// The wrapper carrying the resulting value back to the caller.
#[derive(Debug, PartialEq)]
pub struct ReleaseNode {
    pub value: Value,
}

impl ReleaseNode {
    pub fn new(value: Value) -> (r: ReleaseNode)
        ensures
            r.value == value,
    {
        ReleaseNode { value }
    }
}

/// Where the dataset comes from: an already-decoded literal value, a path
/// to a delimited text file, or some source variant that exists upstream
/// but is not implemented by this core.
#[derive(Debug, PartialEq)]
pub enum DataSource {
    Literal(Value),
    FilePath(String),
    Unsupported,
}

/// The arguments of one materialization.
pub struct NodeArguments {
    /// Optional one-dimensional string array naming the columns.
    pub column_names: Option<Tensor<String>>,
    /// Optional exact column count; mutually exclusive with `column_names`.
    pub num_columns: Option<i64>,
    /// The required data source.
    pub data_source: Option<DataSource>,
    /// When true, the first text record is discarded as a header row.
    pub skip_row: bool,
}

impl NodeArguments {
    /// What a caller must guarantee: a non-negative requested column count,
    /// and well-formed tensors wherever the arguments carry one.
    pub open spec fn wf(self) -> bool {
        &&& self.num_columns matches Some(n) ==> 0 <= n as int && n as int <= usize::MAX as int
        &&& self.column_names matches Some(t) ==> t.wf()
        &&& self.data_source matches Some(DataSource::Literal(Value::Array(a))) ==> a.wf()
    }
}

/// Pushing onto a vector appends the element's deep view to the vector's.
pub proof fn lemma_push_deep_view<T: DeepView>(v1: Vec<T>, v2: Vec<T>, x: T)
    requires
        v2@ == v1@.push(x),
    ensures
        v2.deep_view() == v1.deep_view().push(x.deep_view()),
{
    assert(v2.deep_view() =~= v1.deep_view().push(x.deep_view()));
}

/// One element kind of a dataset: how a default-valued (zero, `false`,
/// empty-string) filler cell is made, and how a finished column is wrapped
/// back into a kind-tagged 1-D [`Value`].
pub trait Elem: DeepView + Sized {
    /// The deep view of this kind's default-valued filler cell.
    spec fn default_model() -> Self::V;

    /// `v` is exactly a 1-D array of this kind whose cells view to `col`.
    spec fn is_column(v: Value, col: Seq<Self::V>) -> bool;

    /// The array model a tensor of this kind is tagged into.
    spec fn wrap_tensor_model(t: TensorModel<Self::V>) -> ArrayModel;

    fn default_value() -> (r: Self)
        ensures
            r.deep_view() == Self::default_model(),
    ;

    fn wrap_column(col: Vec<Self>) -> (r: Value)
        ensures
            Self::is_column(r, col.deep_view()),
    ;

    fn wrap_tensor(t: Tensor<Self>) -> (r: Value)
        ensures
            r matches Value::Array(a) && a.model() == Self::wrap_tensor_model(t.model()) && a.wf()
                == t.wf(),
    ;
}

impl Elem for i64 {
    open spec fn default_model() -> i64 {
        0
    }

    open spec fn is_column(v: Value, col: Seq<i64>) -> bool {
        v matches Value::Array(Array::I64(Tensor::Vector(c))) && c.deep_view() == col
    }

    open spec fn wrap_tensor_model(t: TensorModel<i64>) -> ArrayModel {
        ArrayModel::I64(t)
    }

    fn default_value() -> (r: i64) {
        0
    }

    fn wrap_column(col: Vec<i64>) -> (r: Value) {
        Value::Array(Array::I64(Tensor::Vector(col)))
    }

    fn wrap_tensor(t: Tensor<i64>) -> (r: Value) {
        Value::Array(Array::I64(t))
    }
}

impl Elem for u64 {
    open spec fn default_model() -> u64 {
        0
    }

    open spec fn is_column(v: Value, col: Seq<u64>) -> bool {
        v matches Value::Array(Array::F64(Tensor::Vector(c))) && c.deep_view() == col
    }

    open spec fn wrap_tensor_model(t: TensorModel<u64>) -> ArrayModel {
        ArrayModel::F64(t)
    }

    fn default_value() -> (r: u64) {
        0
    }

    fn wrap_column(col: Vec<u64>) -> (r: Value) {
        Value::Array(Array::F64(Tensor::Vector(col)))
    }

    fn wrap_tensor(t: Tensor<u64>) -> (r: Value) {
        Value::Array(Array::F64(t))
    }
}

impl Elem for bool {
    open spec fn default_model() -> bool {
        false
    }

    open spec fn is_column(v: Value, col: Seq<bool>) -> bool {
        v matches Value::Array(Array::Bool(Tensor::Vector(c))) && c.deep_view() == col
    }

    open spec fn wrap_tensor_model(t: TensorModel<bool>) -> ArrayModel {
        ArrayModel::Bool(t)
    }

    fn default_value() -> (r: bool) {
        false
    }

    fn wrap_column(col: Vec<bool>) -> (r: Value) {
        Value::Array(Array::Bool(Tensor::Vector(col)))
    }

    fn wrap_tensor(t: Tensor<bool>) -> (r: Value) {
        Value::Array(Array::Bool(t))
    }
}

impl Elem for String {
    open spec fn default_model() -> Seq<char> {
        Seq::empty()
    }

    open spec fn is_column(v: Value, col: Seq<Seq<char>>) -> bool {
        v matches Value::Array(Array::Str(Tensor::Vector(c))) && c.deep_view() == col
    }

    open spec fn wrap_tensor_model(t: TensorModel<Seq<char>>) -> ArrayModel {
        ArrayModel::Str(t)
    }

    fn default_value() -> (r: String) {
        String::new()
    }

    fn wrap_column(col: Vec<String>) -> (r: Value) {
        Value::Array(Array::Str(Tensor::Vector(col)))
    }

    fn wrap_tensor(t: Tensor<String>) -> (r: Value) {
        Value::Array(Array::Str(t))
    }
}

} // verus!
