//! The value codec: caller values into bound statement parameters, and result
//! cells into caller values.
use vstd::prelude::*;
use crate::error::DbError;
use crate::names::insert_pair;
use indexmap::IndexMap;
use crate::url::same_text;

verus! {

/// A JSON number: a non-negative integer, a negative integer, or a float held
/// as its IEEE-754 bits.
#[derive(Debug, Clone, Copy, PartialEq, Eq)]
pub enum JsonNumber {
    PosInt(u64),
    NegInt(i64),
    Float(u64),
}

/// A loosely typed value as the caller hands it in and gets it back.
#[derive(Debug, PartialEq)]
pub enum DynValue {
    Null,
    Bool(bool),
    Number(JsonNumber),
    String(String),
    Array(Vec<DynValue>),
    Object(Vec<(String, DynValue)>),
}

/// One statement parameter, as the codec classifies it for binding.
#[derive(Debug, PartialEq)]
pub enum Bound {
    /// SQL NULL.
    Null,
    /// Owned text, bound as it is.
    Text(String),
    /// A number, bound as a 64-bit float: integers above 2^53 may lose
    /// precision there.
    Number(JsonNumber),
    /// Anything else (a boolean, an array, an object), bound through the
    /// engine's own dynamic encoding.
    Raw(DynValue),
}

/// One result cell as the engine reports it.
#[derive(Debug, PartialEq)]
pub enum Cell {
    Null,
    Integer(i64),
    /// A REAL, as its IEEE-754 bits.
    Real(u64),
    Text(String),
    Blob(Vec<u8>),
    Boolean(bool),
    /// A column of a type with no output representation; holds the type's name.
    Unsupported(String),
}

#[verifier::external_type_specification]
#[verifier::external_body]
#[verifier::reject_recursive_types(K)]
#[verifier::reject_recursive_types(V)]
#[verifier::reject_recursive_types(S)]
pub struct ExIndexMap<K, V, S>(IndexMap<K, V, S>);

/// The entries of a result row, in order, each column name by its characters.
pub uninterp spec fn row_entries(m: IndexMap<String, DynValue>) -> Seq<(Seq<char>, DynValue)>;

/// Relies on `IndexMap::new`: a map with no entries.
#[verifier::external_body]
fn new_row() -> (r: IndexMap<String, DynValue>)
    ensures
        row_entries(r) == Seq::<(Seq<char>, DynValue)>::empty(),
{
    IndexMap::new()
}

/// Relies on `IndexMap::insert`: a key already present keeps its place and
/// takes the new value; a new key goes last.
#[verifier::external_body]
fn row_insert(m: &mut IndexMap<String, DynValue>, k: String, v: DynValue)
    ensures
        row_entries(*final(m)) == insert_pair(row_entries(*old(m)), k@, v),
{
    m.insert(k, v);
}

/// How a result cell is read, by the engine's name for its type.
#[derive(Debug, Clone, Copy, PartialEq, Eq)]
pub enum CellKind {
    Null,
    Integer,
    Real,
    Text,
    Blob,
    Boolean,
    Unsupported,
}

/// The reading of each type name: date and time types read as text,
/// `NUMERIC` as an integer, and a name not listed here is unsupported.
pub open spec fn kind_of_type(name: Seq<char>) -> CellKind {
    if name == "NULL"@ {
        CellKind::Null
    } else if name == "INTEGER"@ || name == "NUMERIC"@ {
        CellKind::Integer
    } else if name == "REAL"@ {
        CellKind::Real
    } else if name == "TEXT"@ || name == "DATE"@ || name == "TIME"@ || name == "DATETIME"@ {
        CellKind::Text
    } else if name == "BLOB"@ {
        CellKind::Blob
    } else if name == "BOOLEAN"@ {
        CellKind::Boolean
    } else {
        CellKind::Unsupported
    }
}

/// How a cell of the type named `name` is read.
pub fn cell_kind(name: &str) -> (r: CellKind)
    ensures
        r == kind_of_type(name@),
{
    if same_text(name, "NULL") {
        CellKind::Null
    } else if same_text(name, "INTEGER") || same_text(name, "NUMERIC") {
        CellKind::Integer
    } else if same_text(name, "REAL") {
        CellKind::Real
    } else if same_text(name, "TEXT") || same_text(name, "DATE") || same_text(name, "TIME")
        || same_text(name, "DATETIME") {
        CellKind::Text
    } else if same_text(name, "BLOB") {
        CellKind::Blob
    } else if same_text(name, "BOOLEAN") {
        CellKind::Boolean
    } else {
        CellKind::Unsupported
    }
}

/// Whether cell `c` is of the reading `k`.
pub open spec fn cell_has_kind(c: Cell, k: CellKind) -> bool {
    match c {
        Cell::Null => k is Null,
        Cell::Integer(_) => k is Integer,
        Cell::Real(_) => k is Real,
        Cell::Text(_) => k is Text,
        Cell::Blob(_) => k is Blob,
        Cell::Boolean(_) => k is Boolean,
        Cell::Unsupported(_) => k is Unsupported,
    }
}

/// The cell of a column whose engine type is named `ty`. `decoded` is
/// what decoding the raw value as `cell_kind(ty)` gave, `None` when that
/// failed. A null value, and a value that fails to decode, read as `Null`; a
/// type with no reading is `Unsupported`.
pub fn read_cell(is_null: bool, ty: String, decoded: Option<Cell>) -> (r: Cell)
    ensures
        is_null ==> r is Null,
        !is_null && kind_of_type(ty@) is Unsupported ==> (r matches Cell::Unsupported(t)
            && t@ == ty@),
        !is_null && !(kind_of_type(ty@) is Unsupported) ==> (if decoded matches Some(c)
            && cell_has_kind(c, kind_of_type(ty@)) {
            decoded == Some(r)
        } else {
            r is Null
        }),
{
    if is_null {
        return Cell::Null;
    }
    let k = cell_kind(ty.as_str());
    match k {
        CellKind::Unsupported => Cell::Unsupported(ty),
        _ => match decoded {
            Some(c) => {
                let same = match (&c, k) {
                    (Cell::Null, CellKind::Null) => true,
                    (Cell::Integer(_), CellKind::Integer) => true,
                    (Cell::Real(_), CellKind::Real) => true,
                    (Cell::Text(_), CellKind::Text) => true,
                    (Cell::Blob(_), CellKind::Blob) => true,
                    (Cell::Boolean(_), CellKind::Boolean) => true,
                    _ => false,
                };
                if same {
                    c
                } else {
                    Cell::Null
                }
            },
            None => Cell::Null,
        },
    }
}

/// A row of one integer column reads back as one entry: the column's name and
/// the integer as a JSON number. A `select 1` row is of this shape.
pub proof fn lemma_single_integer_row(name: String, i: i64)
    ensures
        row_decodes(
            seq![(name, Cell::Integer(i))],
            seq![(name@, DynValue::Number(int_number(i)))],
        ),
{
    let cols = seq![(name, Cell::Integer(i))];
    let vals = seq![DynValue::Number(int_number(i))];
    assert(cols.drop_last() =~= Seq::<(String, Cell)>::empty());
    assert(fold_row(cols.drop_last(), vals) == Seq::<(Seq<char>, DynValue)>::empty());
    assert(insert_pair(Seq::<(Seq<char>, DynValue)>::empty(), name@, vals[0]) =~= seq![
        (name@, DynValue::Number(int_number(i))),
    ]);
    assert(cells_decode(cols, vals));
}

/// The binding policy, first match wins: null, then string, then number, then
/// everything else.
pub open spec fn bound_of(v: DynValue) -> Bound {
    match v {
        DynValue::Null => Bound::Null,
        DynValue::String(s) => Bound::Text(s),
        DynValue::Number(n) => Bound::Number(n),
        _ => Bound::Raw(v),
    }
}

/// Whether float bits denote a finite value (the exponent is not all ones).
pub open spec fn is_finite_bits(bits: u64) -> bool {
    (bits >> 52u64) & 0x7ffu64 != 0x7ffu64
}

/// The JSON number of an integer.
pub open spec fn int_number(i: i64) -> JsonNumber {
    if i >= 0 {
        JsonNumber::PosInt(i as u64)
    } else {
        JsonNumber::NegInt(i)
    }
}

/// Whether a cell has an output representation.
pub open spec fn decodable(c: Cell) -> bool {
    !(c is Unsupported)
}

/// The decoding policy: `v` is what cell `c` reads back as.
pub open spec fn decodes_to(c: Cell, v: DynValue) -> bool {
    match c {
        Cell::Null => v is Null,
        Cell::Integer(i) => v == DynValue::Number(int_number(i)),
        Cell::Real(bits) => if is_finite_bits(bits) {
            v == DynValue::Number(JsonNumber::Float(bits))
        } else {
            v is Null
        },
        Cell::Text(s) => v is String && v->String_0@ == s@,
        Cell::Blob(b) => v is Array && v->Array_0@.len() == b@.len() && forall|i: int|
            0 <= i < b@.len() ==> v->Array_0@[i] == DynValue::Number(JsonNumber::PosInt(b@[i] as u64)),
        Cell::Boolean(x) => v == DynValue::Bool(x),
        Cell::Unsupported(_) => false,
    }
}

/// The row that named cells `cols`, read back as `vals`, make: each value in
/// column order is inserted under its column's name, a repeated name keeping
/// its first place and taking the later value.
pub open spec fn fold_row(cols: Seq<(String, Cell)>, vals: Seq<DynValue>) -> Seq<(Seq<char>, DynValue)>
    decreases cols.len(),
{
    if cols.len() == 0 {
        Seq::empty()
    } else {
        insert_pair(fold_row(cols.drop_last(), vals), cols.last().0@, vals[cols.len() - 1])
    }
}

/// Whether `vals` are what the cells of `cols` read back as, one for one.
pub open spec fn cells_decode(cols: Seq<(String, Cell)>, vals: Seq<DynValue>) -> bool {
    vals.len() == cols.len() && forall|j: int|
        0 <= j < cols.len() ==> decodes_to(#[trigger] cols[j].1, vals[j])
}

/// Whether `out` is the row that the named cells `cols` decode to.
pub open spec fn row_decodes(cols: Seq<(String, Cell)>, out: Seq<(Seq<char>, DynValue)>) -> bool {
    exists|vals: Seq<DynValue>| cells_decode(cols, vals) && out == fold_row(cols, vals)
}

/// Values read back beyond the cells of `cols` do not change their row.
proof fn lemma_fold_row_extend(cols: Seq<(String, Cell)>, vals: Seq<DynValue>, more: Seq<DynValue>)
    requires
        vals.len() >= cols.len(),
        more.len() >= cols.len(),
        forall|j: int| 0 <= j < cols.len() ==> vals[j] == more[j],
    ensures
        fold_row(cols, vals) == fold_row(cols, more),
    decreases cols.len(),
{
    if cols.len() > 0 {
        lemma_fold_row_extend(cols.drop_last(), vals, more);
    }
}

/// Whether every cell of every row has an output representation.
pub open spec fn all_decodable(rows: Seq<Vec<(String, Cell)>>) -> bool {
    forall|i: int, j: int|
        0 <= i < rows.len() && 0 <= j < rows[i]@.len() ==> decodable(#[trigger] rows[i]@[j].1)
}

/// Classifies one value for binding.
pub fn classify(v: DynValue) -> (r: Bound)
    ensures
        r == bound_of(v),
{
    match v {
        DynValue::Null => Bound::Null,
        DynValue::String(s) => Bound::Text(s),
        DynValue::Number(n) => Bound::Number(n),
        other => Bound::Raw(other),
    }
}

/// Classifies every parameter of a statement, keeping their order.
pub fn prepare_query(values: Vec<DynValue>) -> (r: Vec<Bound>)
    ensures
        r@ == values@.map_values(|v: DynValue| bound_of(v)),
{
    let ghost orig = values@;
    let mut values = values;
    let mut r: Vec<Bound> = Vec::new();
    let mut i: usize = 0;
    while i < values.len()
        invariant
            values@.len() == orig.len(),
            0 <= i <= orig.len(),
            forall|j: int| i <= j < orig.len() ==> values@[j] == orig[j],
            r@ == orig.subrange(0, i as int).map_values(|v: DynValue| bound_of(v)),
        decreases orig.len() - i,
    {
        let mut v = DynValue::Null;
        std::mem::swap(&mut v, &mut values[i]);
        r.push(classify(v));
        proof {
            assert(orig.subrange(0, i + 1) == orig.subrange(0, i as int).push(orig[i as int]));
        }
        i = i + 1;
    }
    assert(orig.subrange(0, orig.len() as int) == orig);
    r
}

/// Decodes one result cell; a type with no output representation is a
/// `DecodeFailure` naming that type.
pub fn to_json(c: &Cell) -> (r: Result<DynValue, DbError>)
    ensures
        r is Ok <==> decodable(*c),
        r matches Ok(v) ==> decodes_to(*c, v),
        r matches Err(e) ==> (*c matches Cell::Unsupported(t) && e == DbError::DecodeFailure(t)),
{
    match c {
        Cell::Null => Ok(DynValue::Null),
        Cell::Integer(i) => {
            let n = if *i >= 0 {
                JsonNumber::PosInt(*i as u64)
            } else {
                JsonNumber::NegInt(*i)
            };
            Ok(DynValue::Number(n))
        },
        Cell::Real(bits) => {
            if (*bits >> 52u64) & 0x7ffu64 != 0x7ffu64 {
                Ok(DynValue::Number(JsonNumber::Float(*bits)))
            } else {
                Ok(DynValue::Null)
            }
        },
        Cell::Text(s) => Ok(DynValue::String(s.clone())),
        Cell::Blob(b) => {
            let mut items: Vec<DynValue> = Vec::new();
            let mut i: usize = 0;
            while i < b.len()
                invariant
                    0 <= i <= b@.len(),
                    items@.len() == i,
                    forall|j: int|
                        0 <= j < i ==> items@[j] == DynValue::Number(
                            JsonNumber::PosInt(b@[j] as u64),
                        ),
                decreases b@.len() - i,
            {
                items.push(DynValue::Number(JsonNumber::PosInt(b[i] as u64)));
                i = i + 1;
            }
            Ok(DynValue::Array(items))
        },
        Cell::Boolean(x) => Ok(DynValue::Bool(*x)),
        Cell::Unsupported(t) => Err(DbError::DecodeFailure(t.clone())),
    }
}

/// Whether `j` is the first cell of `cols` that cannot be decoded, and `e`
/// the failure it gives.
pub open spec fn first_failure(cols: Seq<(String, Cell)>, j: int, e: DbError) -> bool {
    0 <= j < cols.len() && (forall|k: int| 0 <= k < j ==> decodable(#[trigger] cols[k].1)) && (
    cols[j].1 matches Cell::Unsupported(t) && e == DbError::DecodeFailure(t))
}

/// Decodes one row, column by column in the engine's order. A cell that
/// cannot be decoded fails the whole row, with the failure of the first such
/// cell.
pub fn decode_row(cols: &Vec<(String, Cell)>) -> (r: Result<IndexMap<String, DynValue>, DbError>)
    ensures
        r is Ok <==> forall|j: int| 0 <= j < cols@.len() ==> decodable(#[trigger] cols@[j].1),
        r matches Ok(m) ==> row_decodes(cols@, row_entries(m)),
        r matches Err(e) ==> exists|j: int| first_failure(cols@, j, e),
{
    let mut m = new_row();
    let ghost mut vals: Seq<DynValue> = Seq::empty();
    let mut j: usize = 0;
    while j < cols.len()
        invariant
            0 <= j <= cols@.len(),
            forall|k: int| 0 <= k < j ==> decodable(#[trigger] cols@[k].1),
            cells_decode(cols@.subrange(0, j as int), vals),
            row_entries(m) == fold_row(cols@.subrange(0, j as int), vals),
        decreases cols@.len() - j,
    {
        let v = match to_json(&cols[j].1) {
            Ok(v) => v,
            Err(e) => {
                assert(first_failure(cols@, j as int, e));
                return Err(e);
            },
        };
        let ghost old_vals = vals;
        proof {
            vals = vals.push(v);
        }
        let name = cols[j].0.clone();
        row_insert(&mut m, name, v);
        proof {
            let c = cols@.subrange(0, j + 1);
            assert(c.drop_last() == cols@.subrange(0, j as int));
            assert(c.last() == cols@[j as int]);
            lemma_fold_row_extend(c.drop_last(), old_vals, vals);
            assert(row_entries(m) == fold_row(c, vals));
            assert forall|k: int| 0 <= k < c.len() implies decodes_to(#[trigger] c[k].1, vals[k]) by {
                if k < j {
                    assert(c[k] == cols@.subrange(0, j as int)[k]);
                }
            }
        }
        j = j + 1;
    }
    assert(cols@.subrange(0, cols@.len() as int) == cols@);
    assert(cells_decode(cols@, vals));
    Ok(m)
}

/// Decodes every row of a result set, in order. A cell that cannot be
/// decoded fails the whole result, with the failure of the first such cell
/// in row order.
pub fn rows_to_vec(rows: &Vec<Vec<(String, Cell)>>) -> (r: Result<
    Vec<IndexMap<String, DynValue>>,
    DbError,
>)
    ensures
        r is Ok <==> all_decodable(rows@),
        r matches Ok(out) ==> out@.len() == rows@.len() && forall|i: int|
            0 <= i < rows@.len() ==> row_decodes(rows@[i]@, row_entries(#[trigger] out@[i])),
        r matches Err(e) ==> exists|i: int, j: int|
            0 <= i < rows@.len() && (forall|k: int, l: int|
                0 <= k < i && 0 <= l < rows@[k]@.len() ==> decodable(#[trigger] rows@[k]@[l].1))
                && #[trigger] first_failure(rows@[i]@, j, e),
{
    let mut out: Vec<IndexMap<String, DynValue>> = Vec::new();
    let mut i: usize = 0;
    while i < rows.len()
        invariant
            0 <= i <= rows@.len(),
            out@.len() == i,
            forall|k: int, j: int|
                0 <= k < i && 0 <= j < rows@[k]@.len() ==> decodable(#[trigger] rows@[k]@[j].1),
            forall|k: int|
                0 <= k < i ==> row_decodes(rows@[k]@, row_entries(#[trigger] out@[k])),
        decreases rows@.len() - i,
    {
        match decode_row(&rows[i]) {
            Ok(m) => out.push(m),
            Err(e) => {
                proof {
                    let j = choose|j: int| first_failure(rows@[i as int]@, j, e);
                    assert(first_failure(rows@[i as int]@, j, e));
                }
                return Err(e);
            },
        }
        i = i + 1;
    }
    Ok(out)
}

} // verus!
