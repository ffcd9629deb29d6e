//! The file materializer: buckets delimited text records into per-column
//! string buffers, reconciles structurally absent columns, and emits a
//! keyed column map.

use vstd::prelude::*;
use vstd::pervasive::unreached;
use vstd::pervasive::VecAdditionalExecFns;

use crate::literal::{
    is_named_columns, named_map, named_pointwise, seq_distinct, split_named_columns,
};
use crate::maps::{lemma_str_assoc_dom, lemma_str_assoc_index, str_assoc_map};
use crate::value::{lemma_push_deep_view, Array, Elem, Hashmap, MaterializeError, ReleaseNode,
    Tensor, Value};

verus! {

/// The cells landing in column `j`: one per record that is long enough,
/// in record order.
pub open spec fn column_cells(records: Seq<Seq<Seq<char>>>, j: int) -> Seq<Seq<char>>
    decreases records.len(),
{
    if records.len() <= 0 {
        Seq::empty()
    } else {
        let prefix = column_cells(records.drop_last(), j);
        if j < records.last().len() {
            prefix.push(records.last()[j])
        } else {
            prefix
        }
    }
}

/// The `n` column buffers the records fill; cells at an index at or past
/// `n` are dropped.
pub open spec fn bucket(records: Seq<Seq<Seq<char>>>, n: nat) -> Seq<Seq<Seq<char>>> {
    Seq::new(n, |j: int| column_cells(records, j))
}

/// How many of the buffers received at least one cell.
pub open spec fn count_nonempty(cols: Seq<Seq<Seq<char>>>) -> nat
    decreases cols.len(),
{
    if cols.len() <= 0 {
        0
    } else {
        count_nonempty(cols.drop_last()) + if cols.last().len() > 0 {
            1nat
        } else {
            0nat
        }
    }
}

/// A column of `rows` empty strings.
pub open spec fn empty_strings(rows: nat) -> Seq<Seq<char>> {
    Seq::new(rows, |i: int| Seq::<char>::empty())
}

/// The backfill step: when some but not all buffers received cells, every
/// buffer from the count of populated ones onward is replaced by empty
/// strings, as many as the first buffer holds; otherwise nothing changes.
pub open spec fn backfilled(cols: Seq<Seq<Seq<char>>>) -> Seq<Seq<Seq<char>>> {
    let k = count_nonempty(cols);
    if 0 < k && k < cols.len() {
        Seq::new(
            cols.len(),
            |j: int|
                if j < k {
                    cols[j]
                } else {
                    empty_strings(cols[0].len())
                },
        )
    } else {
        cols
    }
}

/// The records that count as data: all of them, or all but the first when
/// it is consumed as a header row.
pub open spec fn data_records(records: Seq<Seq<Seq<char>>>, skip: bool) -> Seq<Seq<Seq<char>>> {
    if skip && records.len() > 0 {
        records.drop_first()
    } else {
        records
    }
}

/// The finished columns a record stream materializes into.
pub open spec fn file_columns(records: Seq<Seq<Seq<char>>>, skip: bool, n: nat) -> Seq<
    Seq<Seq<char>>,
> {
    backfilled(bucket(data_records(records, skip), n))
}

/// The result is an integer-keyed column map: key `j`, counted from zero,
/// carries exactly the column `cols[j]`.
pub open spec fn is_indexed_columns(v: Value, cols: Seq<Seq<Seq<char>>>) -> bool {
    v matches Value::Hashmap(Hashmap::I64(entries)) && entries@.len() == cols.len() && forall|
        j: int,
    |
        0 <= j < entries@.len() ==> (#[trigger] entries@[j]).0 == j && String::is_column(
            entries@[j].1,
            cols[j],
        )
}

/// Fills the `num_columns` column buffers from the data records.
fn bucket_file_columns(records: &Vec<Vec<String>>, skip_row: bool, num_columns: usize) -> (r: Vec<
    Vec<String>,
>)
    ensures
        r.deep_view() == bucket(data_records(records.deep_view(), skip_row), num_columns as nat),
{
    let ghost recs_dv = records.deep_view();
    let start: usize = if skip_row && records.len() > 0 {
        1
    } else {
        0
    };
    let ghost data_dv = data_records(recs_dv, skip_row);
    proof {
        assert(data_dv =~= recs_dv.subrange(start as int, recs_dv.len() as int));
    }
    let mut buffers: Vec<Vec<String>> = Vec::new();
    proof {
        assert(buffers.deep_view() =~= bucket(data_dv, 0));
    }
    for j in 0..num_columns
        invariant
            start <= records@.len(),
            recs_dv == records.deep_view(),
            data_dv =~= recs_dv.subrange(start as int, recs_dv.len() as int),
            buffers.deep_view() =~= bucket(data_dv, j as nat),
    {
        let mut col: Vec<String> = Vec::new();
        proof {
            assert(col.deep_view() =~= column_cells(recs_dv.subrange(start as int, start as int), j as int));
        }
        for i in start..records.len()
            invariant
                start <= i,
                start <= records@.len(),
                recs_dv == records.deep_view(),
                col.deep_view() =~= column_cells(
                    recs_dv.subrange(start as int, i as int),
                    j as int,
                ),
        {
            let ghost sub_pre = recs_dv.subrange(start as int, i as int);
            let ghost sub_post = recs_dv.subrange(start as int, i as int + 1);
            proof {
                assert(sub_post.drop_last() =~= sub_pre);
                assert(sub_post.last() == recs_dv[i as int]);
                assert(recs_dv[i as int] == records@[i as int].deep_view());
                assert(recs_dv[i as int].len() == records@[i as int]@.len());
            }
            let rec = &records[i];
            if j < rec.len() {
                let ghost pre = col;
                let cell = rec[j].clone();
                proof {
                    assert(cell@ == records@[i as int]@[j as int]@);
                    assert(cell.deep_view() == recs_dv[i as int][j as int]);
                }
                col.push(cell);
                proof {
                    lemma_push_deep_view(pre, col, col@.last());
                    assert(col.deep_view() =~= column_cells(sub_post, j as int));
                }
            } else {
                proof {
                    assert(col.deep_view() =~= column_cells(sub_post, j as int));
                }
            }
        }
        let ghost bufs_pre = buffers;
        proof {
            assert(col.deep_view() =~= column_cells(data_dv, j as int));
        }
        buffers.push(col);
        proof {
            lemma_push_deep_view(bufs_pre, buffers, buffers@.last());
            assert(buffers.deep_view() =~= bucket(data_dv, (j + 1) as nat));
        }
    }
    proof {
        assert(buffers.deep_view() =~= bucket(data_records(records.deep_view(), skip_row), num_columns as nat));
    }
    buffers
}

/// A column of `rows` freshly made empty strings.
fn make_empty_strings(rows: usize) -> (r: Vec<String>)
    ensures
        r.deep_view() == empty_strings(rows as nat),
{
    let mut col: Vec<String> = Vec::new();
    for i in 0..rows
        invariant
            col.deep_view() =~= empty_strings(i as nat),
    {
        let ghost pre = col;
        col.push(String::new());
        proof {
            lemma_push_deep_view(pre, col, col@.last());
            assert(col.deep_view() =~= empty_strings((i + 1) as nat));
        }
    }
    proof {
        assert(col.deep_view() =~= empty_strings(rows as nat));
    }
    col
}

/// Replaces every buffer past the populated ones by empty-string columns
/// when some but not all buffers received cells.
fn backfill_columns(buffers: Vec<Vec<String>>) -> (r: Vec<Vec<String>>)
    ensures
        r.deep_view() == backfilled(buffers.deep_view()),
{
    let ghost bufs_dv = buffers.deep_view();
    let mut bufs = buffers;
    let n = bufs.len();
    proof {
        assert(bufs_dv.len() == bufs@.len());
    }
    let mut nonempty: usize = 0;
    for j in 0..n
        invariant
            n == bufs@.len(),
            bufs_dv == bufs.deep_view(),
            nonempty <= j,
            nonempty == count_nonempty(bufs_dv.take(j as int)),
    {
        proof {
            assert(bufs_dv.take(j as int + 1).drop_last() =~= bufs_dv.take(j as int));
            assert(bufs_dv[j as int] == bufs@[j as int].deep_view());
            assert(bufs_dv[j as int].len() == bufs@[j as int]@.len());
        }
        if bufs[j].len() > 0 {
            nonempty = nonempty + 1;
        }
    }
    proof {
        assert(bufs_dv.take(n as int) =~= bufs_dv);
    }
    if 0 < nonempty && nonempty < n {
        let fill_rows = bufs[0].len();
        proof {
            assert(bufs_dv[0] == bufs@[0].deep_view());
            assert(fill_rows as nat == bufs_dv[0].len());
        }
        for j in nonempty..n
            invariant
                n == bufs@.len(),
                bufs_dv.len() == n,
                0 < nonempty < n,
                nonempty <= j <= n,
                fill_rows as nat == bufs_dv[0].len(),
                bufs.deep_view() =~= Seq::new(
                    n as nat,
                    |q: int|
                        if nonempty <= q < j {
                            empty_strings(bufs_dv[0].len())
                        } else {
                            bufs_dv[q]
                        },
                ),
        {
            let col = make_empty_strings(fill_rows);
            let ghost pre = bufs;
            bufs.set(j, col);
            proof {
                assert forall|q: int| 0 <= q < n && q != j implies bufs.deep_view()[q]
                    == pre.deep_view()[q] by {
                    assert(bufs@[q] == pre@[q]);
                }
                assert(bufs.deep_view()[j as int] == col.deep_view());
                assert(bufs.deep_view() =~= Seq::new(
                    n as nat,
                    |q: int|
                        if nonempty <= q < j + 1 {
                            empty_strings(bufs_dv[0].len())
                        } else {
                            bufs_dv[q]
                        },
                ));
            }
        }
        proof {
            assert(bufs.deep_view() =~= backfilled(bufs_dv));
        }
    } else {
        proof {
            assert(bufs.deep_view() =~= backfilled(bufs_dv));
        }
    }
    bufs
}

/// What the file materializer yields from a record stream: a string-keyed
/// column map over the first `n` supplied names, or an integer-keyed one
/// over the column positions when no names were supplied.
pub open spec fn file_outcome(
    node: ReleaseNode,
    records: Seq<Seq<Seq<char>>>,
    skip: bool,
    column_names: Option<Vec<String>>,
    n: nat,
) -> bool {
    let cols = file_columns(records, skip, n);
    match column_names {
        Some(ns) => is_named_columns::<String>(
            node.value,
            named_map(ns.deep_view().take(n as int), cols),
        ) && (seq_distinct(ns.deep_view().take(n as int)) ==> named_pointwise::<String>(
            node.value,
            ns@.take(n as int),
            cols,
        )),
        None => is_indexed_columns(node.value, cols),
    }
}

/// Materializes already-parsed text records: buckets each record's cells
/// into the column buffers by position, backfills structurally absent
/// columns, and assembles the keyed column map. When `skip_row` is set the
/// first record is discarded as a header. Nothing fails here: parsing has
/// already happened.
pub fn materialize_file_records(
    records: Vec<Vec<String>>,
    skip_row: bool,
    column_names: Option<Vec<String>>,
    num_columns: usize,
) -> (r: ReleaseNode)
    requires
        column_names matches Some(ns) ==> ns@.len() >= num_columns,
        column_names is None ==> num_columns as int <= i64::MAX as int,
    ensures
        file_outcome(r, records.deep_view(), skip_row, column_names, num_columns as nat),
{
    let ghost cols = file_columns(records.deep_view(), skip_row, num_columns as nat);
    let buffers = bucket_file_columns(&records, skip_row, num_columns);
    let buffers = backfill_columns(buffers);
    proof {
        assert(buffers.deep_view() == cols);
        assert(cols.len() == num_columns);
    }
    match column_names {
        Some(ns) => {
            let mut used: Vec<String> = Vec::new();
            for j in 0..num_columns
                invariant
                    num_columns <= ns@.len(),
                    used@.len() == j,
                    forall|q: int| 0 <= q < j ==> used@[q] == ns@[q],
            {
                used.push(ns[j].clone());
            }
            proof {
                assert(used@ =~= ns@.take(num_columns as int));
                assert(used.deep_view() =~= ns.deep_view().take(num_columns as int));
                assert(buffers.deep_view().take(num_columns as int) =~= cols);
            }
            match split_named_columns::<String>(buffers, used) {
                Ok(entries) => ReleaseNode::new(Value::Hashmap(Hashmap::Str(entries))),
                Err(_) => unreached(),
            }
        },
        None => {
            let mut remaining = buffers;
            let mut entries: Vec<(i64, Value)> = Vec::new();
            for j in 0..num_columns
                invariant
                    num_columns as int <= i64::MAX as int,
                    cols.len() == num_columns,
                    remaining.deep_view() =~= cols.subrange(j as int, cols.len() as int),
                    entries@.len() == j,
                    forall|q: int|
                        0 <= q < j ==> (#[trigger] entries@[q]).0 == q && String::is_column(
                            entries@[q].1,
                            cols[q],
                        ),
            {
                let ghost pre_remaining = remaining;
                proof {
                    assert(remaining.deep_view().len() == remaining@.len());
                    assert(remaining@.len() == cols.len() - j);
                }
                let col = remaining.remove(0);
                proof {
                    assert(col.deep_view() == pre_remaining.deep_view()[0]);
                    assert(col.deep_view() == cols[j as int]);
                    assert(remaining@ =~= pre_remaining@.subrange(1, pre_remaining@.len() as int));
                    assert forall|p: int| 0 <= p < remaining@.len() implies remaining.deep_view()[p]
                        == cols[j as int + 1 + p] by {
                        assert(remaining.deep_view()[p] == remaining@[p].deep_view());
                        assert(remaining@[p] == pre_remaining@[p + 1]);
                        assert(pre_remaining.deep_view()[p + 1] == pre_remaining@[p
                            + 1].deep_view());
                        assert(pre_remaining.deep_view()[p + 1] == cols.subrange(
                            j as int,
                            cols.len() as int,
                        )[p + 1]);
                    }
                    assert(remaining.deep_view() =~= cols.subrange(j as int + 1, cols.len() as int));
                }
                let value = String::wrap_column(col);
                entries.push((j as i64, value));
            }
            ReleaseNode::new(Value::Hashmap(Hashmap::I64(entries)))
        },
    }
}

/// What parsing the delimited bytes yields: the records, each one
/// sequence of cell strings, or a decoding failure. The result depends on
/// the bytes alone.
pub uninterp spec fn csv_parse(bytes: Seq<u8>) -> Result<Seq<Seq<Seq<char>>>, Seq<char>>;

/// Relies on csv::ReaderBuilder and csv::Reader: reading delimited
/// records out of an in-memory byte buffer, with header handling off, is
/// a function of the bytes alone; each record is one row's cells in
/// order, and a malformed record surfaces as the reader's error.
#[verifier::external_body]
fn read_csv_records(bytes: &Vec<u8>) -> (r: Result<Vec<Vec<String>>, String>)
    ensures
        r is Ok <==> csv_parse(bytes@) is Ok,
        r matches Ok(recs) ==> csv_parse(bytes@) matches Ok(m) && recs.deep_view() == m,
{
    let mut reader = csv::ReaderBuilder::new().has_headers(false).from_reader(bytes.as_slice());
    let mut out: Vec<Vec<String>> = Vec::new();
    for record in reader.records() {
        match record {
            Ok(rec) => out.push(rec.iter().map(|cell| cell.to_string()).collect()),
            Err(e) => return Err(format!("{:?}", e)),
        }
    }
    Ok(out)
}

/// Materializes the contents of a delimited text file, already read into
/// memory, into a keyed column map: parses the bytes as records and
/// buckets them into columns. Fails with `ParseError` exactly when some
/// record cannot be decoded into cells.
pub fn materialize_file(
    bytes: &Vec<u8>,
    skip_row: bool,
    column_names: Option<Vec<String>>,
    num_columns: usize,
) -> (r: Result<ReleaseNode, MaterializeError>)
    requires
        column_names matches Some(ns) ==> ns@.len() >= num_columns,
        column_names is None ==> num_columns as int <= i64::MAX as int,
    ensures
        r is Ok <==> csv_parse(bytes@) is Ok,
        r matches Err(e) ==> e == MaterializeError::ParseError,
        r matches Ok(node) ==> csv_parse(bytes@) matches Ok(recs) && file_outcome(
            node,
            recs,
            skip_row,
            column_names,
            num_columns as nat,
        ),
{
    match read_csv_records(bytes) {
        Err(_) => Err(MaterializeError::ParseError),
        Ok(records) => Ok(
            materialize_file_records(records, skip_row, column_names, num_columns),
        ),
    }
}

/// Every record reaches past column `j`, so column `j` got one cell per
/// record.
proof fn lemma_column_cells_full(records: Seq<Seq<Seq<char>>>, j: int)
    requires
        forall|i: int| 0 <= i < records.len() ==> (#[trigger] records[i]).len() > j,
    ensures
        column_cells(records, j).len() == records.len(),
    decreases records.len(),
{
    if records.len() > 0 {
        assert(forall|i: int|
            0 <= i < records.len() - 1 ==> records.drop_last()[i] == records[i]);
        lemma_column_cells_full(records.drop_last(), j);
    }
}

/// No record reaches past column `j`, so column `j` stayed empty.
proof fn lemma_column_cells_absent(records: Seq<Seq<Seq<char>>>, j: int)
    requires
        forall|i: int| 0 <= i < records.len() ==> (#[trigger] records[i]).len() <= j,
    ensures
        column_cells(records, j) == Seq::<Seq<char>>::empty(),
    decreases records.len(),
{
    if records.len() > 0 {
        assert(forall|i: int|
            0 <= i < records.len() - 1 ==> records.drop_last()[i] == records[i]);
        lemma_column_cells_absent(records.drop_last(), j);
    }
}

/// When exactly the first `k` buffers are populated, `k` buffers count as
/// populated.
proof fn lemma_count_prefix(cols: Seq<Seq<Seq<char>>>, k: nat)
    requires
        k <= cols.len(),
        forall|j: int| 0 <= j < cols.len() ==> ((#[trigger] cols[j]).len() > 0 <==> j < k),
    ensures
        count_nonempty(cols) == k,
    decreases cols.len(),
{
    if cols.len() > 0 {
        let d = cols.drop_last();
        assert(forall|j: int| 0 <= j < d.len() ==> d[j] == cols[j]);
        if cols.last().len() > 0 {
            lemma_count_prefix(d, (k - 1) as nat);
        } else {
            lemma_count_prefix(d, k);
        }
    }
}

/// Law: when the records fill only the first `k` of `n` requested columns
/// — each record carrying exactly `k` cells, as a strict delimited reader
/// guarantees — the materialized columns all end at one cell per record,
/// and the columns from `k` onward hold empty strings only.
pub proof fn lemma_backfill_equalizes(records: Seq<Seq<Seq<char>>>, k: nat, n: nat)
    requires
        0 < k < n,
        records.len() > 0,
        forall|i: int| 0 <= i < records.len() ==> (#[trigger] records[i]).len() == k,
    ensures
        file_columns(records, false, n).len() == n,
        forall|j: int|
            0 <= j < n ==> (#[trigger] file_columns(records, false, n)[j]).len()
                == records.len(),
        forall|j: int|
            k <= j < n ==> (#[trigger] file_columns(records, false, n)[j]) == empty_strings(
                records.len(),
            ),
{
    let b = bucket(records, n);
    assert forall|j: int| 0 <= j < n implies ((#[trigger] b[j]).len() > 0 <==> j < k) by {
        if j < k {
            lemma_column_cells_full(records, j);
        } else {
            lemma_column_cells_absent(records, j);
        }
    }
    lemma_count_prefix(b, k);
    lemma_column_cells_full(records, 0);
    let out = file_columns(records, false, n);
    assert(out =~= backfilled(b));
    assert forall|j: int| 0 <= j < n implies (#[trigger] out[j]).len() == records.len() by {
        if j < k {
            lemma_column_cells_full(records, j);
        } else {
            assert(out[j] == empty_strings(b[0].len()));
        }
    }
}

/// The cells of a 1-D string column value; empty when it is not one.
pub open spec fn str_column_model(v: Value) -> Seq<Seq<char>> {
    match v {
        Value::Array(Array::Str(Tensor::Vector(c))) => c.deep_view(),
        _ => Seq::empty(),
    }
}

/// Law: materializing the same record stream twice with identical
/// arguments yields value-identical results — with names, the same key
/// set with each key carrying the same cells; without names, the same
/// keys in the same positions carrying the same cells.
pub proof fn lemma_materialize_file_idempotent(
    n1: ReleaseNode,
    n2: ReleaseNode,
    records: Seq<Seq<Seq<char>>>,
    skip: bool,
    column_names: Option<Vec<String>>,
    n: nat,
)
    requires
        file_outcome(n1, records, skip, column_names, n),
        file_outcome(n2, records, skip, column_names, n),
    ensures
        match (n1.value, n2.value) {
            (Value::Hashmap(Hashmap::Str(e1)), Value::Hashmap(Hashmap::Str(e2))) => {
                &&& str_assoc_map(e1@).dom() == str_assoc_map(e2@).dom()
                &&& forall|k: Seq<char>|
                    #[trigger] str_assoc_map(e1@).contains_key(k) ==> str_column_model(
                        str_assoc_map(e1@)[k],
                    ) == str_column_model(str_assoc_map(e2@)[k])
            },
            (Value::Hashmap(Hashmap::I64(e1)), Value::Hashmap(Hashmap::I64(e2))) => {
                &&& e1@.len() == e2@.len()
                &&& forall|j: int|
                    0 <= j < e1@.len() ==> (#[trigger] e1@[j]).0 == e2@[j].0 && str_column_model(
                        e1@[j].1,
                    ) == str_column_model(e2@[j].1)
            },
            _ => false,
        },
{
    match column_names {
        Some(ns) => {
            let m = named_map(ns.deep_view().take(n as int), file_columns(records, skip, n));
            match (n1.value, n2.value) {
                (Value::Hashmap(Hashmap::Str(e1)), Value::Hashmap(Hashmap::Str(e2))) => {
                    assert forall|k: Seq<char>| #[trigger]
                        str_assoc_map(e1@).contains_key(k) implies str_column_model(
                        str_assoc_map(e1@)[k],
                    ) == str_column_model(str_assoc_map(e2@)[k]) by {
                        lemma_str_assoc_dom(e1@, k);
                        let i1 = choose|i: int| 0 <= i < e1@.len() && (#[trigger] e1@[i]).0@ == k;
                        lemma_str_assoc_index(e1@, i1);
                        lemma_str_assoc_dom(e2@, k);
                        let i2 = choose|i: int| 0 <= i < e2@.len() && (#[trigger] e2@[i]).0@ == k;
                        lemma_str_assoc_index(e2@, i2);
                    }
                },
                _ => {},
            }
        },
        None => {},
    }
}

} // verus!
