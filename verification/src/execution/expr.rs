//! Expressions over batches: column references by index, literals, binary
//! comparisons and boolean combinators, evaluated column-wise.

use vstd::prelude::*;
use crate::execution::types::{
    DataType, DecimalValue, ScalarValue, ValueModel, value_type, value_wf, dec_lt, dec_le, dec_eq,
    MAX_DECIMAL_SCALE,
};
use crate::execution::schema::{FieldModel, Schema};
use crate::execution::batch::{Batch, Column, row_of};
use crate::execution::error::ExecutionError;

verus! {

/// A binary comparison or boolean combinator.
#[derive(Clone, Copy, PartialEq, Eq, Structural, Debug)]
pub enum Operator {
    Eq,
    NotEq,
    Lt,
    LtEq,
    Gt,
    GtEq,
    And,
    Or,
}

/// An expression tree evaluated against a batch.
#[derive(Debug)]
pub enum PlanExpr {
    /// A column of the input batch, referenced by index.
    Column(usize),
    /// A constant.
    Literal(ScalarValue),
    /// A binary comparison or boolean combinator of two subexpressions.
    Binary { left: Box<PlanExpr>, op: Operator, right: Box<PlanExpr> },
}

/// A numeric value read as an exact decimal; integers sit on scale zero.
pub open spec fn as_num(v: ValueModel) -> Option<DecimalValue> {
    match v {
        ValueModel::Int64(x) => Some(DecimalValue { mantissa: x, scale: 0 }),
        ValueModel::Decimal(d) => Some(d),
        _ => None,
    }
}

/// What an ordering or equality operator means on two exact decimals.
pub open spec fn cmp_dec(op: Operator, a: DecimalValue, b: DecimalValue) -> bool {
    match op {
        Operator::Eq => a.eq_spec(b),
        Operator::NotEq => !a.eq_spec(b),
        Operator::Lt => a.lt_spec(b),
        Operator::LtEq => a.lt_spec(b) || a.eq_spec(b),
        Operator::Gt => b.lt_spec(a),
        Operator::GtEq => b.lt_spec(a) || b.eq_spec(a),
        Operator::And => false,
        Operator::Or => false,
    }
}

/// The value a binary operator produces on two operand values; `None` when
/// the operands' types do not fit the operator.
pub open spec fn eval_binary(op: Operator, a: ValueModel, b: ValueModel) -> Option<ValueModel> {
    match op {
        Operator::And => match (a, b) {
            (ValueModel::Boolean(x), ValueModel::Boolean(y)) => Some(ValueModel::Boolean(x && y)),
            _ => None,
        },
        Operator::Or => match (a, b) {
            (ValueModel::Boolean(x), ValueModel::Boolean(y)) => Some(ValueModel::Boolean(x || y)),
            _ => None,
        },
        _ => {
            if as_num(a) is Some && as_num(b) is Some {
                Some(ValueModel::Boolean(cmp_dec(op, as_num(a)->Some_0, as_num(b)->Some_0)))
            } else {
                match (a, b) {
                    (ValueModel::Utf8(s), ValueModel::Utf8(t)) => match op {
                        Operator::Eq => Some(ValueModel::Boolean(s == t)),
                        Operator::NotEq => Some(ValueModel::Boolean(s != t)),
                        _ => None,
                    },
                    (ValueModel::Boolean(x), ValueModel::Boolean(y)) => match op {
                        Operator::Eq => Some(ValueModel::Boolean(x == y)),
                        Operator::NotEq => Some(ValueModel::Boolean(x != y)),
                        _ => None,
                    },
                    _ => None,
                }
            }
        },
    }
}

/// The value an expression takes on one row; `None` on an unresolvable
/// reference or a type mismatch.
pub open spec fn eval_row(e: PlanExpr, row: Seq<ValueModel>) -> Option<ValueModel>
    decreases e,
{
    match e {
        PlanExpr::Column(i) => if (i as int) < row.len() {
            Some(row[i as int])
        } else {
            None
        },
        PlanExpr::Literal(v) => Some(v@),
        PlanExpr::Binary { left, op, right } => match (eval_row(*left, row), eval_row(*right, row)) {
            (Some(a), Some(b)) => eval_binary(op, a, b),
            _ => None,
        },
    }
}

/// Whether a type is numeric (exactly comparable with the other numeric
/// types).
pub open spec fn is_numeric(t: DataType) -> bool {
    t == DataType::Int64 || t == DataType::Decimal
}

/// The result type of a binary operator on operands of two given types;
/// `None` when the operator does not accept them.
pub open spec fn binop_type(op: Operator, tl: DataType, tr: DataType) -> Option<DataType> {
    match op {
        Operator::And | Operator::Or => if tl == DataType::Boolean && tr == DataType::Boolean {
            Some(DataType::Boolean)
        } else {
            None
        },
        Operator::Eq | Operator::NotEq => if (is_numeric(tl) && is_numeric(tr)) || tl == tr {
            Some(DataType::Boolean)
        } else {
            None
        },
        _ => if is_numeric(tl) && is_numeric(tr) {
            Some(DataType::Boolean)
        } else {
            None
        },
    }
}

/// The output type of an expression against a schema, computed without
/// looking at data; `None` when the expression does not type-check.
pub open spec fn expr_type(e: PlanExpr, schema: Seq<FieldModel>) -> Option<DataType>
    decreases e,
{
    match e {
        PlanExpr::Column(i) => if (i as int) < schema.len() {
            Some(schema[i as int].data_type)
        } else {
            None
        },
        PlanExpr::Literal(v) => if value_wf(v@) {
            Some(value_type(v@))
        } else {
            None
        },
        PlanExpr::Binary { left, op, right } => match (expr_type(*left, schema), expr_type(
            *right,
            schema,
        )) {
            (Some(tl), Some(tr)) => binop_type(op, tl, tr),
            _ => None,
        },
    }
}

/// A row drawn from a schema-conforming batch: one well-formed value of the
/// declared type per field.
pub open spec fn row_matches(row: Seq<ValueModel>, schema: Seq<FieldModel>) -> bool {
    &&& row.len() == schema.len()
    &&& forall|j: int|
        0 <= j < row.len() ==> value_type(#[trigger] row[j]) == schema[j].data_type && value_wf(
            row[j],
        )
}

/// Type soundness: a well-typed expression evaluates on every
/// schema-conforming row to a well-formed value of its computed type.
pub proof fn lemma_eval_sound(e: PlanExpr, schema: Seq<FieldModel>, row: Seq<ValueModel>)
    requires
        expr_type(e, schema) is Some,
        row_matches(row, schema),
    ensures
        eval_row(e, row) is Some,
        value_type(eval_row(e, row)->Some_0) == expr_type(e, schema)->Some_0,
        value_wf(eval_row(e, row)->Some_0),
    decreases e,
{
    match e {
        PlanExpr::Column(i) => {},
        PlanExpr::Literal(v) => {},
        PlanExpr::Binary { left, op, right } => {
            lemma_eval_sound(*left, schema, row);
            lemma_eval_sound(*right, schema, row);
        },
    }
}

/// Runtime counterpart of [`expr_type`].
pub fn check_expr_type(e: &PlanExpr, schema: &Schema) -> (r: Option<DataType>)
    ensures
        r == expr_type(*e, schema@),
    decreases *e,
{
    match e {
        PlanExpr::Column(i) => {
            if *i < schema.len() {
                Some(schema.field(*i).data_type)
            } else {
                None
            }
        },
        PlanExpr::Literal(v) => {
            let ok = match v {
                ScalarValue::Decimal(d) => d.scale <= MAX_DECIMAL_SCALE,
                _ => true,
            };
            if ok {
                Some(v.data_type())
            } else {
                None
            }
        },
        PlanExpr::Binary { left, op, right } => {
            let tl = check_expr_type(left, schema);
            let tr = check_expr_type(right, schema);
            match (tl, tr) {
                (Some(a), Some(b)) => {
                    match op {
                        Operator::And | Operator::Or => {
                            if a == DataType::Boolean && b == DataType::Boolean {
                                Some(DataType::Boolean)
                            } else {
                                None
                            }
                        },
                        Operator::Eq | Operator::NotEq => {
                            let num = (a == DataType::Int64 || a == DataType::Decimal) && (b
                                == DataType::Int64 || b == DataType::Decimal);
                            if num || a == b {
                                Some(DataType::Boolean)
                            } else {
                                None
                            }
                        },
                        _ => {
                            if (a == DataType::Int64 || a == DataType::Decimal) && (b
                                == DataType::Int64 || b == DataType::Decimal) {
                                Some(DataType::Boolean)
                            } else {
                                None
                            }
                        },
                    }
                },
                _ => None,
            }
        },
    }
}

/// Copies a column value for value.
fn copy_column(c: &Column) -> (r: Column)
    ensures
        r@ == c@,
        r.col_type() == c.col_type(),
{
    match c {
        Column::Boolean(v) => {
            let n = v.len();
            let mut out: Vec<bool> = Vec::new();
            let mut i: usize = 0;
            while i < n
                invariant
                    i <= n,
                    n == v@.len(),
                    out@ == v@.take(i as int),
                decreases n - i,
            {
                out.push(v[i]);
                proof {
                    assert(out@ =~= v@.take(i + 1));
                }
                i = i + 1;
            }
            proof {
                assert(v@.take(n as int) =~= v@);
            }
            Column::Boolean(out)
        },
        Column::Int64(v) => {
            let n = v.len();
            let mut out: Vec<i64> = Vec::new();
            let mut i: usize = 0;
            while i < n
                invariant
                    i <= n,
                    n == v@.len(),
                    out@ == v@.take(i as int),
                decreases n - i,
            {
                out.push(v[i]);
                proof {
                    assert(out@ =~= v@.take(i + 1));
                }
                i = i + 1;
            }
            proof {
                assert(v@.take(n as int) =~= v@);
            }
            Column::Int64(out)
        },
        Column::Decimal(v) => {
            let n = v.len();
            let mut out: Vec<DecimalValue> = Vec::new();
            let mut i: usize = 0;
            while i < n
                invariant
                    i <= n,
                    n == v@.len(),
                    out@ == v@.take(i as int),
                decreases n - i,
            {
                out.push(v[i]);
                proof {
                    assert(out@ =~= v@.take(i + 1));
                }
                i = i + 1;
            }
            proof {
                assert(v@.take(n as int) =~= v@);
            }
            Column::Decimal(out)
        },
        Column::Utf8(v) => {
            let n = v.len();
            let mut out: Vec<String> = Vec::new();
            let mut i: usize = 0;
            while i < n
                invariant
                    i <= n,
                    n == v@.len(),
                    out@ == v@.take(i as int),
                decreases n - i,
            {
                out.push(v[i].clone());
                proof {
                    assert(out@ =~= v@.take(i + 1));
                }
                i = i + 1;
            }
            proof {
                assert(v@.take(n as int) =~= v@);
            }
            Column::Utf8(out)
        },
    }
}

/// A column holding `n` copies of one constant.
fn literal_column(v: &ScalarValue, n: usize) -> (r: Column)
    ensures
        r@.len() == n,
        forall|i: int| 0 <= i < n ==> r@[i] == v@,
        r.col_type() == value_type(v@),
{
    match v {
        ScalarValue::Boolean(x) => {
            let mut out: Vec<bool> = Vec::new();
            let mut i: usize = 0;
            while i < n
                invariant
                    i <= n,
                    out@.len() == i,
                    forall|j: int| 0 <= j < i ==> out@[j] == *x,
                decreases n - i,
            {
                out.push(*x);
                i = i + 1;
            }
            Column::Boolean(out)
        },
        ScalarValue::Int64(x) => {
            let mut out: Vec<i64> = Vec::new();
            let mut i: usize = 0;
            while i < n
                invariant
                    i <= n,
                    out@.len() == i,
                    forall|j: int| 0 <= j < i ==> out@[j] == *x,
                decreases n - i,
            {
                out.push(*x);
                i = i + 1;
            }
            Column::Int64(out)
        },
        ScalarValue::Decimal(x) => {
            let mut out: Vec<DecimalValue> = Vec::new();
            let mut i: usize = 0;
            while i < n
                invariant
                    i <= n,
                    out@.len() == i,
                    forall|j: int| 0 <= j < i ==> out@[j] == *x,
                decreases n - i,
            {
                out.push(*x);
                i = i + 1;
            }
            Column::Decimal(out)
        },
        ScalarValue::Utf8(x) => {
            let mut out: Vec<String> = Vec::new();
            let mut i: usize = 0;
            while i < n
                invariant
                    i <= n,
                    out@.len() == i,
                    forall|j: int| 0 <= j < i ==> out@[j]@ == x@,
                decreases n - i,
            {
                out.push(x.clone());
                i = i + 1;
            }
            let r = Column::Utf8(out);
            proof {
                assert forall|i: int| 0 <= i < n implies r@[i] == v@ by {
                    assert(r@[i] == ValueModel::Utf8(x@));
                }
            }
            r
        },
    }
}

/// Reads a numeric column as exact decimals; `None` on a non-numeric column.
fn to_dec_vec(c: &Column) -> (r: Option<Vec<DecimalValue>>)
    ensures
        match r {
            Some(v) => v@.len() == c@.len() && forall|i: int|
                0 <= i < c@.len() ==> as_num(c@[i]) == Some(v@[i]),
            None => !is_numeric(c.col_type()),
        },
{
    match c {
        Column::Int64(xs) => {
            let n = xs.len();
            let mut out: Vec<DecimalValue> = Vec::new();
            let mut i: usize = 0;
            while i < n
                invariant
                    i <= n,
                    n == xs@.len(),
                    out@.len() == i,
                    forall|j: int| 0 <= j < i ==> out@[j] == (DecimalValue {
                        mantissa: xs@[j],
                        scale: 0,
                    }),
                decreases n - i,
            {
                out.push(DecimalValue { mantissa: xs[i], scale: 0 });
                i = i + 1;
            }
            Some(out)
        },
        Column::Decimal(ds) => {
            let n = ds.len();
            let mut out: Vec<DecimalValue> = Vec::new();
            let mut i: usize = 0;
            while i < n
                invariant
                    i <= n,
                    n == ds@.len(),
                    out@.len() == i,
                    forall|j: int| 0 <= j < i ==> out@[j] == ds@[j],
                decreases n - i,
            {
                out.push(ds[i]);
                i = i + 1;
            }
            Some(out)
        },
        Column::Boolean(_) => None,
        Column::Utf8(_) => None,
    }
}

/// Checks that every decimal keeps its scale within bounds.
fn check_dec_wf(v: &Vec<DecimalValue>) -> (r: bool)
    ensures
        r == forall|i: int| 0 <= i < v@.len() ==> (#[trigger] v@[i]).wf(),
{
    let n = v.len();
    let mut i: usize = 0;
    while i < n
        invariant
            i <= n,
            n == v@.len(),
            forall|j: int| 0 <= j < i ==> (#[trigger] v@[j]).wf(),
        decreases n - i,
    {
        if v[i].scale > MAX_DECIMAL_SCALE {
            return false;
        }
        i = i + 1;
    }
    true
}

/// One comparison on two exact decimals.
fn cmp_dec_exec(op: Operator, a: DecimalValue, b: DecimalValue) -> (r: bool)
    requires
        a.wf(),
        b.wf(),
    ensures
        r == cmp_dec(op, a, b),
{
    match op {
        Operator::Eq => dec_eq(a, b),
        Operator::NotEq => !dec_eq(a, b),
        Operator::Lt => dec_lt(a, b),
        Operator::LtEq => dec_le(a, b),
        Operator::Gt => dec_lt(b, a),
        Operator::GtEq => dec_le(b, a),
        Operator::And => false,
        Operator::Or => false,
    }
}

/// Compares two decimal columns element by element.
fn cmp_dec_cols(op: Operator, a: &Vec<DecimalValue>, b: &Vec<DecimalValue>) -> (r: Vec<bool>)
    requires
        a@.len() == b@.len(),
        forall|i: int| 0 <= i < a@.len() ==> (#[trigger] a@[i]).wf(),
        forall|i: int| 0 <= i < b@.len() ==> (#[trigger] b@[i]).wf(),
    ensures
        r@.len() == a@.len(),
        forall|i: int| 0 <= i < a@.len() ==> r@[i] == cmp_dec(op, a@[i], b@[i]),
{
    let n = a.len();
    let mut out: Vec<bool> = Vec::new();
    let mut i: usize = 0;
    while i < n
        invariant
            i <= n,
            n == a@.len() == b@.len(),
            forall|k: int| 0 <= k < a@.len() ==> (#[trigger] a@[k]).wf(),
            forall|k: int| 0 <= k < b@.len() ==> (#[trigger] b@[k]).wf(),
            out@.len() == i,
            forall|j: int| 0 <= j < i ==> out@[j] == cmp_dec(op, a@[j], b@[j]),
        decreases n - i,
    {
        let x = cmp_dec_exec(op, a[i], b[i]);
        out.push(x);
        i = i + 1;
    }
    out
}

/// Combines two boolean vectors under a combinator or equality operator.
fn zip_bool(op: Operator, a: &Vec<bool>, b: &Vec<bool>) -> (r: Vec<bool>)
    requires
        a@.len() == b@.len(),
        op == Operator::And || op == Operator::Or || op == Operator::Eq || op == Operator::NotEq,
    ensures
        r@.len() == a@.len(),
        forall|i: int|
            0 <= i < a@.len() ==> eval_binary(
                op,
                ValueModel::Boolean(a@[i]),
                ValueModel::Boolean(b@[i]),
            ) == Some(ValueModel::Boolean(r@[i])),
{
    let n = a.len();
    let mut out: Vec<bool> = Vec::new();
    let mut i: usize = 0;
    while i < n
        invariant
            i <= n,
            n == a@.len() == b@.len(),
            op == Operator::And || op == Operator::Or || op == Operator::Eq || op
                == Operator::NotEq,
            out@.len() == i,
            forall|j: int|
                0 <= j < i ==> eval_binary(
                    op,
                    ValueModel::Boolean(a@[j]),
                    ValueModel::Boolean(b@[j]),
                ) == Some(ValueModel::Boolean(out@[j])),
        decreases n - i,
    {
        let x = match op {
            Operator::And => a[i] && b[i],
            Operator::Or => a[i] || b[i],
            Operator::Eq => a[i] == b[i],
            _ => a[i] != b[i],
        };
        out.push(x);
        i = i + 1;
    }
    out
}

/// Compares two string columns for equality or inequality.
fn zip_utf8(op: Operator, a: &Vec<String>, b: &Vec<String>) -> (r: Vec<bool>)
    requires
        a@.len() == b@.len(),
        op == Operator::Eq || op == Operator::NotEq,
    ensures
        r@.len() == a@.len(),
        forall|i: int|
            0 <= i < a@.len() ==> eval_binary(
                op,
                ValueModel::Utf8(a@[i]@),
                ValueModel::Utf8(b@[i]@),
            ) == Some(ValueModel::Boolean(r@[i])),
{
    let n = a.len();
    let mut out: Vec<bool> = Vec::new();
    let mut i: usize = 0;
    while i < n
        invariant
            i <= n,
            n == a@.len() == b@.len(),
            op == Operator::Eq || op == Operator::NotEq,
            out@.len() == i,
            forall|j: int|
                0 <= j < i ==> eval_binary(
                    op,
                    ValueModel::Utf8(a@[j]@),
                    ValueModel::Utf8(b@[j]@),
                ) == Some(ValueModel::Boolean(out@[j])),
        decreases n - i,
    {
        let eqv = a[i] == b[i];
        let x = match op {
            Operator::Eq => eqv,
            _ => !eqv,
        };
        out.push(x);
        i = i + 1;
    }
    out
}

/// Applies a binary operator to two same-length columns, element by element.
fn combine(op: Operator, lc: &Column, rc: &Column) -> (r: Result<Column, ExecutionError>)
    requires
        lc@.len() == rc@.len(),
    ensures
        r matches Err(e) ==> e matches ExecutionError::InternalError(_),
        r matches Ok(c) ==> c@.len() == lc@.len() && c.col_type() == DataType::Boolean && (forall|i: int|
            0 <= i < lc@.len() ==> eval_binary(op, lc@[i], rc@[i]) == Some(#[trigger] c@[i])),
        binop_type(op, lc.col_type(), rc.col_type()) is Some && lc.values_wf() && rc.values_wf()
            ==> r is Ok,
{
    match op {
        Operator::And | Operator::Or => {
            match (lc, rc) {
                (Column::Boolean(a), Column::Boolean(b)) => {
                    let out = zip_bool(op, a, b);
                    Ok(Column::Boolean(out))
                },
                _ => Err(
                    ExecutionError::InternalError("boolean combinator on non-boolean columns".to_owned()),
                ),
            }
        },
        _ => {
            let ld = to_dec_vec(lc);
            let rd = to_dec_vec(rc);
            match (ld, rd) {
                (Some(a), Some(b)) => {
                    if check_dec_wf(&a) && check_dec_wf(&b) {
                        let out = cmp_dec_cols(op, &a, &b);
                        proof {
                            assert forall|i: int| 0 <= i < lc@.len() implies eval_binary(
                                op,
                                lc@[i],
                                rc@[i],
                            ) == Some(ValueModel::Boolean(out@[i])) by {
                                assert(as_num(lc@[i]) == Some(a@[i]));
                                assert(as_num(rc@[i]) == Some(b@[i]));
                            }
                        }
                        Ok(Column::Boolean(out))
                    } else {
                        proof {
                            if lc.values_wf() && rc.values_wf() {
                                assert forall|i: int| 0 <= i < a@.len() implies (
                                #[trigger] a@[i]).wf() by {
                                    assert(value_wf(lc@[i]));
                                    assert(as_num(lc@[i]) == Some(a@[i]));
                                }
                                assert forall|i: int| 0 <= i < b@.len() implies (
                                #[trigger] b@[i]).wf() by {
                                    assert(value_wf(rc@[i]));
                                    assert(as_num(rc@[i]) == Some(b@[i]));
                                }
                            }
                        }
                        Err(
                            ExecutionError::InternalError("decimal value out of range".to_owned()),
                        )
                    }
                },
                _ => {
                    match (lc, rc) {
                        (Column::Utf8(a), Column::Utf8(b)) => {
                            match op {
                                Operator::Eq | Operator::NotEq => {
                                    let out = zip_utf8(op, a, b);
                                    Ok(Column::Boolean(out))
                                },
                                _ => Err(
                                    ExecutionError::InternalError(
                                        "ordering comparison on strings".to_owned(),
                                    ),
                                ),
                            }
                        },
                        (Column::Boolean(a), Column::Boolean(b)) => {
                            match op {
                                Operator::Eq | Operator::NotEq => {
                                    let out = zip_bool(op, a, b);
                                    Ok(Column::Boolean(out))
                                },
                                _ => Err(
                                    ExecutionError::InternalError(
                                        "ordering comparison on booleans".to_owned(),
                                    ),
                                ),
                            }
                        },
                        _ => Err(
                            ExecutionError::InternalError(
                                "comparison on mismatched column types".to_owned(),
                            ),
                        ),
                    }
                },
            }
        },
    }
}

/// Evaluates an expression column-wise against a whole batch, producing one
/// output column whose value at each row is the expression's value on that
/// row. A well-typed expression on a well-formed batch always succeeds.
pub fn eval(e: &PlanExpr, batch: &Batch) -> (r: Result<Column, ExecutionError>)
    ensures
        r matches Err(err) ==> err matches ExecutionError::InternalError(_),
        r matches Ok(c) ==> c@.len() == batch@.num_rows && forall|i: int|
            0 <= i < batch@.num_rows ==> eval_row(*e, row_of(batch@, i)) == Some(c@[i]),
        batch.wt() && expr_type(*e, batch@.schema) is Some ==> (r matches Ok(c) && c.col_type()
            == expr_type(*e, batch@.schema)->Some_0 && c.values_wf()),
    decreases *e,
{
    match e {
        PlanExpr::Column(j) => {
            if *j < batch.num_columns() {
                let c = batch.column(*j);
                if c.len() == batch.num_rows() {
                    let out = copy_column(c);
                    proof {
                        assert forall|i: int| 0 <= i < batch@.num_rows implies eval_row(
                            *e,
                            row_of(batch@, i),
                        ) == Some(out@[i]) by {
                            assert(row_of(batch@, i)[*j as int] == batch@.columns[*j as int][i]);
                        }
                        assert(out.col_type() == c.col_type());
                    }
                    Ok(out)
                } else {
                    Err(
                        ExecutionError::InternalError(
                            "column length does not match batch row count".to_owned(),
                        ),
                    )
                }
            } else {
                Err(ExecutionError::InternalError("column reference out of range".to_owned()))
            }
        },
        PlanExpr::Literal(v) => {
            let out = literal_column(v, batch.num_rows());
            Ok(out)
        },
        PlanExpr::Binary { left, op, right } => {
            let lc = match eval(left, batch) {
                Ok(c) => c,
                Err(err) => {
                    return Err(err);
                },
            };
            let rc = match eval(right, batch) {
                Ok(c) => c,
                Err(err) => {
                    return Err(err);
                },
            };
            let out = match combine(*op, &lc, &rc) {
                Ok(c) => c,
                Err(err) => {
                    return Err(err);
                },
            };
            proof {
                assert forall|i: int| 0 <= i < batch@.num_rows implies eval_row(
                    *e,
                    row_of(batch@, i),
                ) == Some(out@[i]) by {
                    assert(eval_row(**left, row_of(batch@, i)) == Some(lc@[i]));
                    assert(eval_row(**right, row_of(batch@, i)) == Some(rc@[i]));
                }
                out.lemma_types();
                assert forall|i: int| 0 <= i < out@.len() implies value_wf(#[trigger] out@[i]) by {
                    assert(value_type(out@[i]) == DataType::Boolean);
                }
            }
            Ok(out)
        },
    }
}

} // verus!
