//! Column, value and batch model: a batch ("chunk") is a set of columns,
//! each either a constant scalar or a per-row column, optionally wrapped
//! with a validity bitmap marking which positions hold a real value.

use vstd::prelude::*;

verus! {

/// Mathematical value of a single cell: null, or a typed value.
pub enum ScalarV {
    Null,
    Bool(bool),
    Num(int),
    Text(Seq<char>),
}

/// A single constant value as stored at runtime.
pub enum Scalar {
    Null,
    Bool(bool),
    Num(i64),
    Text(String),
}

impl View for Scalar {
    type V = ScalarV;

    open spec fn view(&self) -> ScalarV {
        match self {
            Scalar::Null => ScalarV::Null,
            Scalar::Bool(b) => ScalarV::Bool(*b),
            Scalar::Num(n) => ScalarV::Num(*n as int),
            Scalar::Text(s) => ScalarV::Text(s@),
        }
    }
}

impl Scalar {
    /// Structural copy of a scalar, preserving its value.
    pub fn dup(&self) -> (r: Scalar)
        ensures
            r@ == self@,
    {
        match self {
            Scalar::Null => Scalar::Null,
            Scalar::Bool(b) => Scalar::Bool(*b),
            Scalar::Num(n) => Scalar::Num(*n),
            Scalar::Text(s) => Scalar::Text(s.clone()),
        }
    }

    /// Value equality of two scalars (null equals only null).
    pub fn same(&self, other: &Scalar) -> (r: bool)
        ensures
            r == (self@ == other@),
    {
        match (self, other) {
            (Scalar::Null, Scalar::Null) => true,
            (Scalar::Bool(a), Scalar::Bool(b)) => a == b,
            (Scalar::Num(a), Scalar::Num(b)) => a == b,
            (Scalar::Text(a), Scalar::Text(b)) => a.eq(b),
            _ => false,
        }
    }

    pub fn is_null(&self) -> (r: bool)
        ensures
            r == (self@ is Null),
    {
        matches!(self, Scalar::Null)
    }
}

/// Column data type. Nullable variants admit null cells.
#[derive(Clone, Copy, Debug, PartialEq, Eq, Structural)]
pub enum DataType {
    Boolean,
    Number,
    Text,
    Null,
    NullableBoolean,
    NullableNumber,
    NullableText,
}

impl DataType {
    pub open spec fn spec_wrap_nullable(self) -> DataType {
        match self {
            DataType::Boolean => DataType::NullableBoolean,
            DataType::Number => DataType::NullableNumber,
            DataType::Text => DataType::NullableText,
            _ => self,
        }
    }

    /// The nullable version of this type (a nullable or null type is unchanged).
    pub fn wrap_nullable(self) -> (r: DataType)
        ensures
            r == self.spec_wrap_nullable(),
    {
        match self {
            DataType::Boolean => DataType::NullableBoolean,
            DataType::Number => DataType::NullableNumber,
            DataType::Text => DataType::NullableText,
            _ => self,
        }
    }

    pub open spec fn spec_is_nullable(self) -> bool {
        self == DataType::NullableBoolean || self == DataType::NullableNumber
            || self == DataType::NullableText || self == DataType::Null
    }

    pub fn is_nullable(self) -> (r: bool)
        ensures
            r == self.spec_is_nullable(),
    {
        matches!(
            self,
            DataType::NullableBoolean | DataType::NullableNumber | DataType::NullableText
                | DataType::Null
        )
    }
}

/// Whether a cell value is admissible for a column of the given type.
/// Non-nullable types admit no null cells.
pub open spec fn conforms(v: ScalarV, dt: DataType) -> bool {
    match dt {
        DataType::Boolean => v is Bool,
        DataType::Number => v is Num,
        DataType::Text => v is Text,
        DataType::Null => v is Null,
        DataType::NullableBoolean => v is Bool || v is Null,
        DataType::NullableNumber => v is Num || v is Null,
        DataType::NullableText => v is Text || v is Null,
    }
}

/// Whether a runtime scalar is admissible for a column of the given type.
pub fn scalar_conforms(s: &Scalar, dt: DataType) -> (r: bool)
    ensures
        r == conforms(s@, dt),
{
    match dt {
        DataType::Boolean => matches!(s, Scalar::Bool(_)),
        DataType::Number => matches!(s, Scalar::Num(_)),
        DataType::Text => matches!(s, Scalar::Text(_)),
        DataType::Null => matches!(s, Scalar::Null),
        DataType::NullableBoolean => matches!(s, Scalar::Bool(_) | Scalar::Null),
        DataType::NullableNumber => matches!(s, Scalar::Num(_) | Scalar::Null),
        DataType::NullableText => matches!(s, Scalar::Text(_) | Scalar::Null),
    }
}

/// A non-nullable column paired with a validity bitmap; positions whose
/// bit is false hold null.
pub struct NullableColumn {
    pub column: Box<Column>,
    pub validity: Vec<bool>,
}

/// A physical column: all-null of a known length, a plain (non-nullable)
/// column of one of the base types, or a nullable wrapper.
pub enum Column {
    Null { len: usize },
    Boolean(Vec<bool>),
    Number(Vec<i64>),
    Text(Vec<String>),
    Nullable(NullableColumn),
}

impl Column {
    pub open spec fn spec_len(&self) -> nat {
        match self {
            Column::Null { len } => *len as nat,
            Column::Boolean(v) => v@.len(),
            Column::Number(v) => v@.len(),
            Column::Text(v) => v@.len(),
            Column::Nullable(n) => n.validity@.len(),
        }
    }

    /// A nullable wrapper holds a plain inner column of matching length.
    pub open spec fn wf(&self) -> bool {
        match self {
            Column::Nullable(n) => !((*n.column) is Nullable) && !((*n.column) is Null)
                && (*n.column).spec_len() == n.validity@.len(),
            _ => true,
        }
    }

    /// The value a plain (non-nullable) column holds at position `i`.
    pub open spec fn plain_cell(&self, i: int) -> ScalarV {
        match self {
            Column::Null { .. } => ScalarV::Null,
            Column::Boolean(v) => ScalarV::Bool(v@[i]),
            Column::Number(v) => ScalarV::Num(v@[i] as int),
            Column::Text(v) => ScalarV::Text(v@[i]@),
            Column::Nullable(_) => ScalarV::Null,
        }
    }

    /// The value held at position `i` (null where the validity bit is unset).
    pub open spec fn cell(&self, i: int) -> ScalarV {
        match self {
            Column::Nullable(n) => if n.validity@[i] {
                (*n.column).plain_cell(i)
            } else {
                ScalarV::Null
            },
            _ => self.plain_cell(i),
        }
    }

    pub open spec fn cells(&self) -> Seq<ScalarV> {
        Seq::new(self.spec_len(), |i: int| self.cell(i))
    }

    pub fn len(&self) -> (r: usize)
        ensures
            r == self.spec_len(),
    {
        match self {
            Column::Null { len } => *len,
            Column::Boolean(v) => v.len(),
            Column::Number(v) => v.len(),
            Column::Text(v) => v.len(),
            Column::Nullable(n) => n.validity.len(),
        }
    }

    /// Materializes the value at position `i` as a scalar.
    pub fn scalar_at(&self, i: usize) -> (r: Scalar)
        requires
            self.wf(),
            i < self.spec_len(),
        ensures
            r@ == self.cell(i as int),
    {
        match self {
            Column::Null { .. } => Scalar::Null,
            Column::Boolean(v) => Scalar::Bool(v[i]),
            Column::Number(v) => Scalar::Num(v[i]),
            Column::Text(v) => Scalar::Text(v[i].clone()),
            Column::Nullable(n) => {
                if n.validity[i] {
                    match &*n.column {
                        Column::Null { .. } => Scalar::Null,
                        Column::Boolean(v) => Scalar::Bool(v[i]),
                        Column::Number(v) => Scalar::Num(v[i]),
                        Column::Text(v) => Scalar::Text(v[i].clone()),
                        Column::Nullable(_) => Scalar::Null,
                    }
                } else {
                    Scalar::Null
                }
            },
        }
    }

    /// Runtime check of the nullable-wrapper shape invariant.
    pub fn check_wf(&self) -> (r: bool)
        ensures
            r == self.wf(),
    {
        match self {
            Column::Nullable(n) => {
                let inner_ok = !matches!(&*n.column, Column::Nullable(_) | Column::Null { .. });
                inner_ok && n.column.len() == n.validity.len()
            },
            _ => true,
        }
    }

    /// Structural copy of a column, preserving length and every cell.
    pub fn dup(&self) -> (r: Column)
        requires
            self.wf(),
        ensures
            r.wf(),
            r.spec_len() == self.spec_len(),
            forall|i: int| 0 <= i < self.spec_len() ==> r.cell(i) == self.cell(i),
            r is Nullable <==> self is Nullable,
            r is Null <==> self is Null,
    {
        match self {
            Column::Null { len } => Column::Null { len: *len },
            Column::Boolean(v) => Column::Boolean(dup_bools(v)),
            Column::Number(v) => Column::Number(dup_nums(v)),
            Column::Text(v) => Column::Text(dup_texts(v)),
            Column::Nullable(n) => {
                let inner: Column = match &*n.column {
                    Column::Null { len } => Column::Null { len: *len },
                    Column::Boolean(v) => Column::Boolean(dup_bools(v)),
                    Column::Number(v) => Column::Number(dup_nums(v)),
                    Column::Text(v) => Column::Text(dup_texts(v)),
                    Column::Nullable(_) => Column::Null { len: 0 },
                };
                let c = Column::Nullable(
                    NullableColumn { column: Box::new(inner), validity: dup_bools(&n.validity) },
                );
                assert(forall|i: int|
                    0 <= i < self.spec_len() ==> c.cell(i) == self.cell(i));
                c
            },
        }
    }
}

/// Element-wise copy of a boolean vector.
pub fn dup_bools(v: &Vec<bool>) -> (r: Vec<bool>)
    ensures
        r@ == v@,
{
    let mut r: Vec<bool> = Vec::new();
    let mut i: usize = 0;
    while i < v.len()
        invariant
            i <= v.len(),
            r@ == v@.subrange(0, i as int),
        decreases v.len() - i,
    {
        r.push(v[i]);
        i = i + 1;
    }
    assert(r@ == v@);
    r
}

/// Element-wise copy of a number vector.
pub fn dup_nums(v: &Vec<i64>) -> (r: Vec<i64>)
    ensures
        r@ == v@,
{
    let mut r: Vec<i64> = Vec::new();
    let mut i: usize = 0;
    while i < v.len()
        invariant
            i <= v.len(),
            r@ == v@.subrange(0, i as int),
        decreases v.len() - i,
    {
        r.push(v[i]);
        i = i + 1;
    }
    assert(r@ == v@);
    r
}

/// Element-wise copy of a text vector, preserving each string's characters.
pub fn dup_texts(v: &Vec<String>) -> (r: Vec<String>)
    ensures
        r@.len() == v@.len(),
        forall|i: int| 0 <= i < v@.len() ==> r@[i]@ == v@[i]@,
{
    let mut r: Vec<String> = Vec::new();
    let mut i: usize = 0;
    while i < v.len()
        invariant
            i <= v.len(),
            r@.len() == i,
            forall|j: int| 0 <= j < i ==> r@[j]@ == v@[j]@,
        decreases v.len() - i,
    {
        r.push(v[i].clone());
        i = i + 1;
    }
    r
}

/// Splits boolean-or-null cells into raw values and a validity bitmap.
fn split_bools(cells: &Vec<Scalar>) -> (r: (Vec<bool>, Vec<bool>))
    requires
        forall|i: int| 0 <= i < cells@.len()
            ==> (#[trigger] cells@[i]@) is Bool || cells@[i]@ is Null,
    ensures
        r.0@.len() == cells@.len(),
        r.1@.len() == cells@.len(),
        forall|i: int| 0 <= i < cells@.len()
            ==> (#[trigger] r.1@[i]) == !(cells@[i]@ is Null),
        forall|i: int| 0 <= i < cells@.len() && r.1@[i]
            ==> ScalarV::Bool(#[trigger] r.0@[i]) == cells@[i]@,
{
    let mut vals: Vec<bool> = Vec::new();
    let mut valid: Vec<bool> = Vec::new();
    let mut i: usize = 0;
    while i < cells.len()
        invariant
            i <= cells@.len(),
            vals@.len() == i,
            valid@.len() == i,
            forall|k: int| 0 <= k < cells@.len()
                ==> (#[trigger] cells@[k]@) is Bool || cells@[k]@ is Null,
            forall|k: int| 0 <= k < i ==> (#[trigger] valid@[k]) == !(cells@[k]@ is Null),
            forall|k: int| 0 <= k < i && valid@[k]
                ==> ScalarV::Bool(#[trigger] vals@[k]) == cells@[k]@,
        decreases cells@.len() - i,
    {
        match &cells[i] {
            Scalar::Bool(b) => {
                vals.push(*b);
                valid.push(true);
            },
            _ => {
                vals.push(false);
                valid.push(false);
            },
        }
        i = i + 1;
    }
    (vals, valid)
}

/// Splits number-or-null cells into raw values and a validity bitmap.
fn split_nums(cells: &Vec<Scalar>) -> (r: (Vec<i64>, Vec<bool>))
    requires
        forall|i: int| 0 <= i < cells@.len()
            ==> (#[trigger] cells@[i]@) is Num || cells@[i]@ is Null,
    ensures
        r.0@.len() == cells@.len(),
        r.1@.len() == cells@.len(),
        forall|i: int| 0 <= i < cells@.len()
            ==> (#[trigger] r.1@[i]) == !(cells@[i]@ is Null),
        forall|i: int| 0 <= i < cells@.len() && r.1@[i]
            ==> ScalarV::Num(#[trigger] r.0@[i] as int) == cells@[i]@,
{
    let mut vals: Vec<i64> = Vec::new();
    let mut valid: Vec<bool> = Vec::new();
    let mut i: usize = 0;
    while i < cells.len()
        invariant
            i <= cells@.len(),
            vals@.len() == i,
            valid@.len() == i,
            forall|k: int| 0 <= k < cells@.len()
                ==> (#[trigger] cells@[k]@) is Num || cells@[k]@ is Null,
            forall|k: int| 0 <= k < i ==> (#[trigger] valid@[k]) == !(cells@[k]@ is Null),
            forall|k: int| 0 <= k < i && valid@[k]
                ==> ScalarV::Num(#[trigger] vals@[k] as int) == cells@[k]@,
        decreases cells@.len() - i,
    {
        match &cells[i] {
            Scalar::Num(n) => {
                vals.push(*n);
                valid.push(true);
            },
            _ => {
                vals.push(0);
                valid.push(false);
            },
        }
        i = i + 1;
    }
    (vals, valid)
}

/// Splits text-or-null cells into raw values and a validity bitmap.
fn split_texts(cells: &Vec<Scalar>) -> (r: (Vec<String>, Vec<bool>))
    requires
        forall|i: int| 0 <= i < cells@.len()
            ==> (#[trigger] cells@[i]@) is Text || cells@[i]@ is Null,
    ensures
        r.0@.len() == cells@.len(),
        r.1@.len() == cells@.len(),
        forall|i: int| 0 <= i < cells@.len()
            ==> (#[trigger] r.1@[i]) == !(cells@[i]@ is Null),
        forall|i: int| 0 <= i < cells@.len() && r.1@[i]
            ==> ScalarV::Text(#[trigger] r.0@[i]@) == cells@[i]@,
{
    let mut vals: Vec<String> = Vec::new();
    let mut valid: Vec<bool> = Vec::new();
    let mut i: usize = 0;
    while i < cells.len()
        invariant
            i <= cells@.len(),
            vals@.len() == i,
            valid@.len() == i,
            forall|k: int| 0 <= k < cells@.len()
                ==> (#[trigger] cells@[k]@) is Text || cells@[k]@ is Null,
            forall|k: int| 0 <= k < i ==> (#[trigger] valid@[k]) == !(cells@[k]@ is Null),
            forall|k: int| 0 <= k < i && valid@[k]
                ==> ScalarV::Text(#[trigger] vals@[k]@) == cells@[k]@,
        decreases cells@.len() - i,
    {
        match &cells[i] {
            Scalar::Text(s) => {
                vals.push(s.clone());
                valid.push(true);
            },
            _ => {
                vals.push(String::new());
                valid.push(false);
            },
        }
        i = i + 1;
    }
    (vals, valid)
}

/// Builds a column of the given type from materialized cells; every cell
/// must be admissible for the type.
pub fn build_column(cells: &Vec<Scalar>, dt: DataType) -> (r: Column)
    requires
        forall|i: int| 0 <= i < cells@.len() ==> conforms(#[trigger] cells@[i]@, dt),
    ensures
        r.wf(),
        r.spec_len() == cells@.len(),
        forall|i: int| 0 <= i < cells@.len() ==> r.cell(i) == cells@[i]@,
        r is Nullable <==> (dt.spec_is_nullable() && dt != DataType::Null),
        r is Null <==> dt == DataType::Null,
{
    match dt {
        DataType::Null => Column::Null { len: cells.len() },
        DataType::Boolean => {
            let (vals, _valid) = split_bools(cells);
            Column::Boolean(vals)
        },
        DataType::Number => {
            let (vals, _valid) = split_nums(cells);
            Column::Number(vals)
        },
        DataType::Text => {
            let (vals, _valid) = split_texts(cells);
            Column::Text(vals)
        },
        DataType::NullableBoolean => {
            let (vals, valid) = split_bools(cells);
            Column::Nullable(NullableColumn { column: Box::new(Column::Boolean(vals)), validity: valid })
        },
        DataType::NullableNumber => {
            let (vals, valid) = split_nums(cells);
            Column::Nullable(NullableColumn { column: Box::new(Column::Number(vals)), validity: valid })
        },
        DataType::NullableText => {
            let (vals, valid) = split_texts(cells);
            Column::Nullable(NullableColumn { column: Box::new(Column::Text(vals)), validity: valid })
        },
    }
}

/// Mathematical view of a sequence of scalars.
pub open spec fn cells_view(s: Seq<Scalar>) -> Seq<ScalarV> {
    s.map_values(|x: Scalar| x@)
}

/// A column's worth of data inside a batch: a constant scalar that stands
/// for every row, or a per-row column.
pub enum Value {
    Scalar(Scalar),
    Column(Column),
}

/// Whether two column values share the same physical shape: scalar
/// against scalar, and column against a column of the same nullability
/// kind (plain, nullable wrapper, or all-null).
pub open spec fn same_shape(a: Value, b: Value) -> bool {
    &&& (a is Scalar <==> b is Scalar)
    &&& (a is Column && b is Column) ==> {
        &&& ((a->Column_0) is Nullable <==> (b->Column_0) is Nullable)
        &&& ((a->Column_0) is Null <==> (b->Column_0) is Null)
    }
}

impl Value {
    pub fn dup(&self) -> (r: Value)
        requires
            self.wf_value(),
        ensures
            r.wf_value(),
            r.value_len() == self.value_len(),
            self is Scalar ==> forall|i: int| r.cell_at(i) == self.cell_at(i),
            self is Column ==> forall|i: int|
                0 <= i < self.value_len()->Some_0 ==> r.cell_at(i) == self.cell_at(i),
            r is Scalar <==> self is Scalar,
            same_shape(r, *self),
    {
        match self {
            Value::Scalar(s) => Value::Scalar(s.dup()),
            Value::Column(c) => Value::Column(c.dup()),
        }
    }

    pub open spec fn wf_value(&self) -> bool {
        match self {
            Value::Scalar(_) => true,
            Value::Column(c) => c.wf(),
        }
    }

    /// Length of a column value; a scalar has no intrinsic length.
    pub open spec fn value_len(&self) -> Option<nat> {
        match self {
            Value::Scalar(_) => Option::None,
            Value::Column(c) => Option::Some(c.spec_len()),
        }
    }

    /// The value this entry holds for row `i` (a scalar holds it for every row).
    pub open spec fn cell_at(&self, i: int) -> ScalarV {
        match self {
            Value::Scalar(s) => s@,
            Value::Column(c) => c.cell(i),
        }
    }
}

/// One column of a batch: an identifier, the data, and its declared type.
pub struct ChunkEntry {
    pub id: usize,
    pub value: Value,
    pub data_type: DataType,
}

impl ChunkEntry {
    /// Well-formed for a batch of `n` rows: a column value has exactly `n` cells.
    pub open spec fn wf(&self, n: nat) -> bool {
        &&& self.value.wf_value()
        &&& match self.value {
            Value::Scalar(_) => true,
            Value::Column(c) => c.spec_len() == n,
        }
    }

    pub open spec fn cell(&self, i: int) -> ScalarV {
        self.value.cell_at(i)
    }

    /// The sequence of cell values this entry contributes to an `n`-row batch.
    pub open spec fn cells(&self, n: nat) -> Seq<ScalarV> {
        Seq::new(n, |i: int| self.cell(i))
    }

    /// Materializes the value this entry holds for row `i` as a scalar.
    pub fn scalar_at(&self, i: usize) -> (r: Scalar)
        requires
            self.value.wf_value(),
            match self.value {
                Value::Column(c) => i < c.spec_len(),
                _ => true,
            },
        ensures
            r@ == self.cell(i as int),
    {
        match &self.value {
            Value::Scalar(s) => s.dup(),
            Value::Column(c) => c.scalar_at(i),
        }
    }

    pub fn dup(&self) -> (r: ChunkEntry)
        requires
            self.value.wf_value(),
        ensures
            r.id == self.id,
            r.data_type == self.data_type,
            r.value.wf_value(),
            r.value.value_len() == self.value.value_len(),
            forall|n: nat, i: int| self.wf(n) && 0 <= i < n ==> r.cell(i) == self.cell(i),
            forall|n: nat| self.wf(n) ==> r.wf(n),
            same_shape(r.value, self.value),
    {
        ChunkEntry { id: self.id, value: self.value.dup(), data_type: self.data_type }
    }
}

/// A row batch: columns plus the common row count.
pub struct Chunk {
    pub columns: Vec<ChunkEntry>,
    pub num_rows: usize,
}

impl Chunk {
    pub open spec fn wf(&self) -> bool {
        forall|c: int| 0 <= c < self.columns@.len()
            ==> (#[trigger] self.columns@[c]).wf(self.num_rows as nat)
    }

    /// Cell value of column `c` at row `i`.
    pub open spec fn cell(&self, c: int, i: int) -> ScalarV {
        self.columns@[c].cell(i)
    }

    /// All cell values of column `c`, in row order.
    pub open spec fn col_cells(&self, c: int) -> Seq<ScalarV> {
        Seq::new(self.num_rows as nat, |i: int| self.cell(c, i))
    }

    pub open spec fn num_columns(&self) -> nat {
        self.columns@.len()
    }

    /// The empty batch: no columns, no rows.
    pub fn empty() -> (r: Chunk)
        ensures
            r.wf(),
            r.num_rows == 0,
            r.num_columns() == 0,
    {
        Chunk { columns: Vec::new(), num_rows: 0 }
    }

    /// Runtime check that every column is well-formed for this row count.
    pub fn check_wf(&self) -> (r: bool)
        ensures
            r == self.wf(),
    {
        let mut c: usize = 0;
        let mut ok = true;
        while c < self.columns.len()
            invariant
                c <= self.columns@.len(),
                ok == forall|k: int| 0 <= k < c
                    ==> (#[trigger] self.columns@[k]).wf(self.num_rows as nat),
            decreases self.columns@.len() - c,
        {
            let entry = &self.columns[c];
            let entry_ok = match &entry.value {
                Value::Scalar(_) => true,
                Value::Column(col) => col.check_wf() && col.len() == self.num_rows,
            };
            ok = ok && entry_ok;
            c = c + 1;
        }
        ok
    }

    pub fn dup(&self) -> (r: Chunk)
        requires
            self.wf(),
        ensures
            r.wf(),
            r.num_rows == self.num_rows,
            r.num_columns() == self.num_columns(),
            forall|c: int, i: int| 0 <= c < self.num_columns() && 0 <= i < self.num_rows
                ==> #[trigger] r.cell(c, i) == self.cell(c, i),
            forall|c: int| 0 <= c < self.num_columns()
                ==> (#[trigger] r.columns@[c]).id == self.columns@[c].id
                    && r.columns@[c].data_type == self.columns@[c].data_type,
            forall|c: int| 0 <= c < self.num_columns()
                ==> same_shape((#[trigger] r.columns@[c]).value, self.columns@[c].value),
    {
        let mut cols: Vec<ChunkEntry> = Vec::new();
        let mut c: usize = 0;
        while c < self.columns.len()
            invariant
                self.wf(),
                c <= self.columns@.len(),
                cols@.len() == c,
                forall|k: int| 0 <= k < c
                    ==> (#[trigger] cols@[k]).wf(self.num_rows as nat),
                forall|k: int, i: int| 0 <= k < c && 0 <= i < self.num_rows
                    ==> #[trigger] cols@[k].cell(i) == self.columns@[k].cell(i),
                forall|k: int| 0 <= k < c
                    ==> (#[trigger] cols@[k]).id == self.columns@[k].id
                        && cols@[k].data_type == self.columns@[k].data_type,
                forall|k: int| 0 <= k < c
                    ==> same_shape((#[trigger] cols@[k]).value, self.columns@[k].value),
            decreases self.columns@.len() - c,
        {
            assert(self.columns@[c as int].wf(self.num_rows as nat));
            cols.push(self.columns[c].dup());
            c = c + 1;
        }
        Chunk { columns: cols, num_rows: self.num_rows }
    }
}

} // verus!
