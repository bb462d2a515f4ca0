//! Columnar batches: a schema plus one same-length typed column per field.

use vstd::prelude::*;
use crate::execution::types::{DataType, DecimalValue, ScalarValue, ValueModel, value_type, value_wf};
use crate::execution::schema::{FieldModel, Schema};

verus! {

/// One column of values, stored contiguously by type.
#[derive(Clone, Debug, PartialEq)]
pub enum Column {
    Boolean(Vec<bool>),
    Int64(Vec<i64>),
    Decimal(Vec<DecimalValue>),
    Utf8(Vec<String>),
}

impl View for Column {
    type V = Seq<ValueModel>;

    open spec fn view(&self) -> Seq<ValueModel> {
        match self {
            Column::Boolean(v) => v@.map_values(|x: bool| ValueModel::Boolean(x)),
            Column::Int64(v) => v@.map_values(|x: i64| ValueModel::Int64(x)),
            Column::Decimal(v) => v@.map_values(|x: DecimalValue| ValueModel::Decimal(x)),
            Column::Utf8(v) => v@.map_values(|x: String| ValueModel::Utf8(x@)),
        }
    }
}

impl Column {
    /// The declared type of this column.
    pub open spec fn col_type(&self) -> DataType {
        match self {
            Column::Boolean(_) => DataType::Boolean,
            Column::Int64(_) => DataType::Int64,
            Column::Decimal(_) => DataType::Decimal,
            Column::Utf8(_) => DataType::Utf8,
        }
    }

    /// Every value a column holds bears the column's own type.
    pub proof fn lemma_types(&self)
        ensures
            forall|i: int| 0 <= i < self@.len() ==> value_type(#[trigger] self@[i]) == self.col_type(),
    {
    }

    /// The declared type, at runtime.
    pub fn data_type(&self) -> (r: DataType)
        ensures
            r == self.col_type(),
    {
        match self {
            Column::Boolean(_) => DataType::Boolean,
            Column::Int64(_) => DataType::Int64,
            Column::Decimal(_) => DataType::Decimal,
            Column::Utf8(_) => DataType::Utf8,
        }
    }

    /// The number of values.
    pub fn len(&self) -> (r: usize)
        ensures
            r == self@.len(),
    {
        match self {
            Column::Boolean(v) => v.len(),
            Column::Int64(v) => v.len(),
            Column::Decimal(v) => v.len(),
            Column::Utf8(v) => v.len(),
        }
    }

    /// The value at a row, copied out.
    pub fn value(&self, i: usize) -> (r: ScalarValue)
        requires
            i < self@.len(),
        ensures
            r@ == self@[i as int],
    {
        match self {
            Column::Boolean(v) => ScalarValue::Boolean(v[i]),
            Column::Int64(v) => ScalarValue::Int64(v[i]),
            Column::Decimal(v) => ScalarValue::Decimal(v[i]),
            Column::Utf8(v) => ScalarValue::Utf8(v[i].clone()),
        }
    }

    /// Every decimal in the column keeps its scale within bounds.
    pub open spec fn values_wf(&self) -> bool {
        forall|i: int| 0 <= i < self@.len() ==> value_wf(#[trigger] self@[i])
    }

    /// Checks [`Column::values_wf`] at runtime.
    pub fn check_values_wf(&self) -> (r: bool)
        ensures
            r == self.values_wf(),
    {
        match self {
            Column::Decimal(v) => {
                let n = v.len();
                let mut i: usize = 0;
                while i < n
                    invariant
                        n == v@.len(),
                        i <= n,
                        forall|j: int| 0 <= j < i ==> value_wf(#[trigger] self@[j]),
                        self matches Column::Decimal(w) && w == v,
                    decreases n - i,
                {
                    if v[i].scale > crate::execution::types::MAX_DECIMAL_SCALE {
                        proof {
                            assert(self@[i as int] == ValueModel::Decimal(v@[i as int]));
                            assert(!value_wf(self@[i as int]));
                        }
                        return false;
                    }
                    proof {
                        assert(self@[i as int] == ValueModel::Decimal(v@[i as int]));
                    }
                    i = i + 1;
                }
                true
            },
            Column::Boolean(_) => true,
            Column::Int64(_) => true,
            Column::Utf8(_) => true,
        }
    }
}

/// Mathematical model of a [`Batch`].
#[verifier::ext_equal]
pub struct BatchModel {
    pub schema: Seq<FieldModel>,
    pub columns: Seq<Seq<ValueModel>>,
    pub num_rows: nat,
}

/// A well-formed batch: one column per field, every column of its field's
/// type, every column of length `num_rows`, and every value well formed.
pub open spec fn batch_wf(b: BatchModel) -> bool {
    &&& b.columns.len() == b.schema.len()
    &&& forall|j: int| 0 <= j < b.columns.len() ==> (#[trigger] b.columns[j]).len() == b.num_rows
    &&& forall|j: int, i: int|
        0 <= j < b.columns.len() && 0 <= i < b.num_rows ==> value_type(
            #[trigger] b.columns[j][i],
        ) == b.schema[j].data_type && value_wf(b.columns[j][i])
}

/// Row `i` of a modeled batch, read across the columns.
pub open spec fn row_of(b: BatchModel, i: int) -> Seq<ValueModel> {
    Seq::new(b.columns.len(), |j: int| b.columns[j][i])
}

/// A schema-tagged chunk of rows in columnar layout.
#[derive(Clone, Debug)]
pub struct Batch {
    pub schema: Schema,
    pub columns: Vec<Column>,
    pub num_rows: usize,
}

impl View for Batch {
    type V = BatchModel;

    open spec fn view(&self) -> BatchModel {
        BatchModel {
            schema: self.schema@,
            columns: self.columns@.map_values(|c: Column| c@),
            num_rows: self.num_rows as nat,
        }
    }
}

impl Batch {
    /// Structural well-formedness: one column per field, each column of its
    /// field's declared type, each of length `num_rows`, every value well
    /// formed. Implies [`batch_wf`] of the model.
    pub open spec fn wt(self) -> bool {
        &&& self.columns@.len() == self.schema@.len()
        &&& forall|j: int|
            0 <= j < self.columns@.len() ==> (#[trigger] self.columns@[j]).col_type()
                == self.schema@[j].data_type
        &&& forall|j: int|
            0 <= j < self.columns@.len() ==> (#[trigger] self.columns@[j])@.len()
                == self.num_rows
        &&& forall|j: int| 0 <= j < self.columns@.len() ==> (#[trigger] self.columns@[j]).values_wf()
    }

    /// A structurally well-formed batch has a well-formed model.
    pub proof fn lemma_wt_wf(self)
        requires
            self.wt(),
        ensures
            batch_wf(self@),
    {
        assert forall|j: int, i: int|
            0 <= j < self@.columns.len() && 0 <= i < self@.num_rows implies value_type(
            #[trigger] self@.columns[j][i],
        ) == self@.schema[j].data_type && value_wf(self@.columns[j][i]) by {
            self.columns@[j].lemma_types();
            assert(self@.columns[j] == self.columns@[j]@);
        }
    }

    /// Builds a batch after checking that the columns fit the schema: one
    /// column per field, matching types, equal lengths, well-formed values.
    /// A shape violation is an internal failure, reported before any data
    /// flows.
    pub fn new(schema: Schema, columns: Vec<Column>) -> (r: Result<Batch, crate::execution::error::ExecutionError>)
        ensures
            match r {
                Ok(b) => b.wt() && batch_wf(b@) && b@.schema == schema@ && b@.columns
                    == columns@.map_values(|c: Column| c@) && b@.num_rows == (if columns@.len() > 0 {
                    columns@[0]@.len()
                } else {
                    0
                }),
                Err(e) => e matches crate::execution::error::ExecutionError::InternalError(_),
            },
            (r matches Ok(_)) <==> (Batch {
                schema: schema,
                columns: columns,
                num_rows: if columns@.len() > 0 {
                    columns@[0]@.len() as usize
                } else {
                    0
                },
            }).wt(),
    {
        let num_rows: usize = if columns.len() > 0 {
            columns[0].len()
        } else {
            0
        };
        let b = Batch { schema, columns, num_rows };
        if b.check_wf() {
            Ok(b)
        } else {
            Err(crate::execution::error::ExecutionError::InternalError(
                "batch columns do not fit the schema".to_owned(),
            ))
        }
    }

    /// The number of rows.
    pub fn num_rows(&self) -> (r: usize)
        ensures
            r == self@.num_rows,
    {
        self.num_rows
    }

    /// The number of columns.
    pub fn num_columns(&self) -> (r: usize)
        ensures
            r == self@.columns.len(),
    {
        self.columns.len()
    }

    /// The column at a position.
    pub fn column(&self, i: usize) -> (r: &Column)
        requires
            i < self@.columns.len(),
        ensures
            *r == self.columns@[i as int],
            r@ == self@.columns[i as int],
    {
        &self.columns[i]
    }

    /// Checks [`Batch::wt`] at runtime.
    pub fn check_wf(&self) -> (r: bool)
        ensures
            r == self.wt(),
    {
        let n = self.columns.len();
        if n != self.schema.len() {
            return false;
        }
        let mut j: usize = 0;
        while j < n
            invariant
                n == self.columns@.len() == self.schema@.len(),
                j <= n,
                forall|k: int| 0 <= k < j ==> (#[trigger] self.columns@[k]).col_type()
                    == self.schema@[k].data_type,
                forall|k: int| 0 <= k < j ==> (#[trigger] self.columns@[k])@.len()
                    == self.num_rows,
                forall|k: int| 0 <= k < j ==> (#[trigger] self.columns@[k]).values_wf(),
            decreases n - j,
        {
            let c = &self.columns[j];
            if c.len() != self.num_rows {
                return false;
            }
            let dt = c.data_type();
            if !(dt == self.schema.field(j).data_type) {
                return false;
            }
            if !c.check_values_wf() {
                return false;
            }
            j = j + 1;
        }
        true
    }
}

} // verus!
