//! The batch transformations behind the physical operators: row selection by
//! a boolean mask and projection through expressions.

use vstd::prelude::*;
use crate::execution::types::{DataType, DecimalValue, ValueModel, value_type, value_wf};
use crate::execution::schema::Schema;
use crate::execution::batch::{Batch, BatchModel, Column, batch_wf, row_of};
use crate::execution::expr::{PlanExpr, eval, eval_row, expr_type};
use crate::execution::error::ExecutionError;

verus! {

/// The indices at which a mask is true, in increasing order.
pub open spec fn keep(m: Seq<bool>) -> Seq<int>
    decreases m.len(),
{
    if m.len() == 0 {
        Seq::empty()
    } else {
        if m.last() {
            keep(m.drop_last()).push(m.len() - 1)
        } else {
            keep(m.drop_last())
        }
    }
}

/// The subsequence of `s` at the indices where `m` is true.
pub open spec fn masked<A>(s: Seq<A>, m: Seq<bool>) -> Seq<A> {
    keep(m).map_values(|i: int| s[i])
}

/// Every index `keep` reports lies in range and carries a true mask bit, and
/// every true mask bit is reported: no false positives and no false negatives.
pub proof fn lemma_keep_sound(m: Seq<bool>)
    ensures
        forall|k: int|
            0 <= k < keep(m).len() ==> 0 <= #[trigger] keep(m)[k] < m.len() && m[keep(m)[k]],
        forall|i: int| 0 <= i < m.len() && m[i] ==> keep(m).contains(i),
        keep(m).len() <= m.len(),
    decreases m.len(),
{
    if m.len() > 0 {
        lemma_keep_sound(m.drop_last());
        let pre = m.drop_last();
        assert forall|i: int| 0 <= i < m.len() && m[i] implies keep(m).contains(i) by {
            if i < m.len() - 1 {
                assert(pre[i] == m[i]);
                assert(keep(pre).contains(i));
                let k = choose|k: int| 0 <= k < keep(pre).len() && keep(pre)[k] == i;
                assert(keep(m)[k] == i);
            } else {
                assert(m.last());
                assert(keep(m)[keep(m).len() - 1] == i);
            }
        }
    }
}

/// How `keep` grows when one more mask bit is taken into view.
pub proof fn lemma_keep_step(m: Seq<bool>, i: int)
    requires
        0 <= i < m.len(),
    ensures
        keep(m.take(i + 1)) == if m[i] {
            keep(m.take(i)).push(i)
        } else {
            keep(m.take(i))
        },
{
    let t = m.take(i + 1);
    assert(t.drop_last() =~= m.take(i));
    assert(t.last() == m[i]);
}

/// Filters a vector of copyable values by a mask.
fn filter_vec_copy<T: Copy>(v: &Vec<T>, m: &Vec<bool>) -> (r: Vec<T>)
    requires
        v@.len() == m@.len(),
    ensures
        r@ == masked(v@, m@),
{
    let n = v.len();
    let mut out: Vec<T> = Vec::new();
    let mut i: usize = 0;
    while i < n
        invariant
            i <= n,
            n == v@.len() == m@.len(),
            out@ == masked(v@, m@.take(i as int)),
        decreases n - i,
    {
        proof {
            lemma_keep_step(m@, i as int);
            lemma_keep_sound(m@.take(i as int));
        }
        if m[i] {
            out.push(v[i]);
            proof {
                assert(out@ =~= masked(v@, m@.take(i + 1)));
            }
        } else {
            proof {
                assert(out@ =~= masked(v@, m@.take(i + 1)));
            }
        }
        i = i + 1;
    }
    proof {
        assert(m@.take(n as int) =~= m@);
    }
    out
}

/// Filters a vector of strings by a mask.
fn filter_vec_utf8(v: &Vec<String>, m: &Vec<bool>) -> (r: Vec<String>)
    requires
        v@.len() == m@.len(),
    ensures
        r@ == masked(v@, m@),
{
    let n = v.len();
    let mut out: Vec<String> = Vec::new();
    let mut i: usize = 0;
    while i < n
        invariant
            i <= n,
            n == v@.len() == m@.len(),
            out@ == masked(v@, m@.take(i as int)),
        decreases n - i,
    {
        proof {
            lemma_keep_step(m@, i as int);
            lemma_keep_sound(m@.take(i as int));
        }
        if m[i] {
            out.push(v[i].clone());
            proof {
                assert(out@ =~= masked(v@, m@.take(i + 1)));
            }
        } else {
            proof {
                assert(out@ =~= masked(v@, m@.take(i + 1)));
            }
        }
        i = i + 1;
    }
    proof {
        assert(m@.take(n as int) =~= m@);
    }
    out
}

/// Masking commutes with reading a vector's values as models.
proof fn lemma_masked_commute<A, B>(s: Seq<A>, m: Seq<bool>, f: spec_fn(A) -> B)
    requires
        s.len() == m.len(),
    ensures
        masked(s.map_values(f), m) =~= masked(s, m).map_values(f),
{
    lemma_keep_sound(m);
}

/// Filters one column by a mask, keeping the rows where the mask is true.
fn filter_column(c: &Column, m: &Vec<bool>) -> (r: Column)
    requires
        c@.len() == m@.len(),
    ensures
        r@ == masked(c@, m@),
        r.col_type() == c.col_type(),
{
    match c {
        Column::Boolean(v) => {
            let out = filter_vec_copy(v, m);
            proof {
                lemma_masked_commute(v@, m@, |x: bool| ValueModel::Boolean(x));
            }
            Column::Boolean(out)
        },
        Column::Int64(v) => {
            let out = filter_vec_copy(v, m);
            proof {
                lemma_masked_commute(v@, m@, |x: i64| ValueModel::Int64(x));
            }
            Column::Int64(out)
        },
        Column::Decimal(v) => {
            let out = filter_vec_copy(v, m);
            proof {
                lemma_masked_commute(v@, m@, |x: DecimalValue| ValueModel::Decimal(x));
            }
            Column::Decimal(out)
        },
        Column::Utf8(v) => {
            let out = filter_vec_utf8(v, m);
            proof {
                lemma_masked_commute(v@, m@, |x: String| ValueModel::Utf8(x@));
                assert(out@.map_values(|x: String| ValueModel::Utf8(x@)) =~= masked(
                    v@,
                    m@,
                ).map_values(|x: String| ValueModel::Utf8(x@)));
            }
            Column::Utf8(out)
        },
    }
}

/// Counts the true bits of a mask.
fn count_true(m: &Vec<bool>) -> (r: usize)
    ensures
        r == keep(m@).len(),
{
    let n = m.len();
    let mut cnt: usize = 0;
    let mut i: usize = 0;
    while i < n
        invariant
            i <= n,
            n == m@.len(),
            cnt == keep(m@.take(i as int)).len(),
            cnt <= i,
        decreases n - i,
    {
        proof {
            lemma_keep_step(m@, i as int);
        }
        if m[i] {
            cnt = cnt + 1;
        }
        i = i + 1;
    }
    proof {
        assert(m@.take(n as int) =~= m@);
    }
    cnt
}

/// The mask a predicate induces on a batch: true exactly on the rows where
/// the predicate evaluates to true.
pub open spec fn mask_of(b: BatchModel, pred: PlanExpr) -> Seq<bool> {
    Seq::new(b.num_rows, |i: int| eval_row(pred, row_of(b, i)) == Some(ValueModel::Boolean(true)))
}

/// Selection: evaluates the predicate column-wise over the batch and keeps
/// exactly the rows whose mask bit is true, leaving the schema untouched.
/// Succeeds on every well-formed batch when the predicate type-checks to a
/// boolean.
pub fn select_batch(pred: &PlanExpr, b: &Batch) -> (r: Result<Batch, ExecutionError>)
    ensures
        r matches Err(e) ==> e matches ExecutionError::InternalError(_),
        r matches Ok(out) ==> {
            &&& out@.schema == b@.schema
            &&& out@.columns.len() == b@.columns.len()
            &&& out@.num_rows == keep(mask_of(b@, *pred)).len()
            &&& forall|j: int|
                0 <= j < b@.columns.len() ==> #[trigger] out@.columns[j] == masked(
                    b@.columns[j],
                    mask_of(b@, *pred),
                )
        },
        b.wt() && expr_type(*pred, b@.schema) == Some(DataType::Boolean) ==> (r matches Ok(out)
            && out.wt()),
{
    let mask_col = match eval(pred, b) {
        Ok(c) => c,
        Err(e) => {
            return Err(e);
        },
    };
    match mask_col {
        Column::Boolean(m) => {
            proof {
                assert(m@.len() == b@.num_rows);
                assert(m@ =~= mask_of(b@, *pred)) by {
                    assert forall|i: int| 0 <= i < b@.num_rows implies m@[i] == (eval_row(
                        *pred,
                        row_of(b@, i),
                    ) == Some(ValueModel::Boolean(true))) by {
                        assert(eval_row(*pred, row_of(b@, i)) == Some(
                            ValueModel::Boolean(m@[i]),
                        ));
                    }
                }
            }
            let ncols = b.columns.len();
            let mut out_cols: Vec<Column> = Vec::new();
            let mut j: usize = 0;
            while j < ncols
                invariant
                    j <= ncols,
                    ncols == b.columns@.len(),
                    m@ == mask_of(b@, *pred),
                    m@.len() == b@.num_rows,
                    out_cols@.len() == j,
                    forall|k: int|
                        0 <= k < j ==> (#[trigger] out_cols@[k])@ == masked(
                            b@.columns[k],
                            mask_of(b@, *pred),
                        ) && out_cols@[k].col_type() == b.columns@[k].col_type(),
                decreases ncols - j,
            {
                let c = &b.columns[j];
                if c.len() != m.len() {
                    return Err(
                        ExecutionError::InternalError(
                            "column length does not match batch row count".to_owned(),
                        ),
                    );
                }
                let fc = filter_column(c, &m);
                out_cols.push(fc);
                j = j + 1;
            }
            let cnt = count_true(&m);
            let out = Batch { schema: copy_schema(&b.schema), columns: out_cols, num_rows: cnt };
            proof {
                assert(out@.columns =~= out_cols@.map_values(|c: Column| c@));
                lemma_keep_sound(mask_of(b@, *pred));
                if b.wt() && expr_type(*pred, b@.schema) == Some(DataType::Boolean) {
                    assert forall|k: int| 0 <= k < out.columns@.len() implies (
                    #[trigger] out.columns@[k]).values_wf() by {
                        assert forall|i: int|
                            0 <= i < out.columns@[k]@.len() implies value_wf(
                            #[trigger] out.columns@[k]@[i],
                        ) by {
                            assert(out.columns@[k]@ == masked(b@.columns[k], mask_of(b@, *pred)));
                            let idx = keep(mask_of(b@, *pred))[i];
                            assert(out.columns@[k]@[i] == b@.columns[k][idx]);
                            assert(b.columns@[k].values_wf());
                            assert(b@.columns[k] == b.columns@[k]@);
                        }
                    }
                }
            }
            Ok(out)
        },
        _ => Err(
            ExecutionError::InternalError(
                "predicate did not evaluate to a boolean column".to_owned(),
            ),
        ),
    }
}

/// Projection: evaluates each output expression against the batch, producing
/// one output column apiece, and assembles the result under the precomputed
/// output schema. The output batch's schema always equals that precomputed
/// schema and its column count equals the number of projected expressions.
pub fn project_batch(exprs: &Vec<PlanExpr>, out_schema: &Schema, b: &Batch) -> (r: Result<
    Batch,
    ExecutionError,
>)
    ensures
        r matches Err(e) ==> e matches ExecutionError::InternalError(_),
        r matches Ok(out) ==> {
            &&& out@.schema == out_schema@
            &&& out@.columns.len() == exprs@.len()
            &&& out@.num_rows == b@.num_rows
            &&& forall|j: int| 0 <= j < exprs@.len() ==> (#[trigger] out@.columns[j]).len() == b@.num_rows
            &&& forall|j: int, i: int|
                0 <= j < exprs@.len() && 0 <= i < b@.num_rows ==> eval_row(
                    #[trigger] exprs@[j],
                    row_of(b@, i),
                ) == Some(#[trigger] out@.columns[j][i])
        },
        b.wt() && out_schema@.len() == exprs@.len() && (forall|j: int|
            0 <= j < exprs@.len() ==> expr_type(#[trigger] exprs@[j], b@.schema) == Some(
                out_schema@[j].data_type,
            )) ==> (r matches Ok(out) && out.wt()),
{
    let ncols = exprs.len();
    let mut out_cols: Vec<Column> = Vec::new();
    let mut j: usize = 0;
    while j < ncols
        invariant
            j <= ncols,
            ncols == exprs@.len(),
            out_cols@.len() == j,
            forall|k: int|
                0 <= k < j ==> (#[trigger] out_cols@[k])@.len() == b@.num_rows && forall|i: int|
                    0 <= i < b@.num_rows ==> eval_row(exprs@[k], row_of(b@, i)) == Some(
                        #[trigger] out_cols@[k]@[i],
                    ),
            b.wt() ==> forall|k: int|
                0 <= k < j ==> (expr_type(exprs@[k], b@.schema) is Some ==> (
                #[trigger] out_cols@[k]).col_type() == expr_type(exprs@[k], b@.schema)->Some_0
                    && out_cols@[k].values_wf()),
        decreases ncols - j,
    {
        let c = match eval(&exprs[j], b) {
            Ok(c) => c,
            Err(e) => {
                return Err(e);
            },
        };
        out_cols.push(c);
        j = j + 1;
    }
    let out = Batch { schema: copy_schema(out_schema), columns: out_cols, num_rows: b.num_rows };
    proof {
        assert(out@.columns =~= out_cols@.map_values(|c: Column| c@));
    }
    Ok(out)
}

/// Copies a schema.
pub fn copy_schema(s: &Schema) -> (r: Schema)
    ensures
        r@ == s@,
{
    let n = s.fields.len();
    let mut out: Vec<crate::execution::schema::Field> = Vec::new();
    let mut i: usize = 0;
    while i < n
        invariant
            i <= n,
            n == s.fields@.len(),
            out@.len() == i,
            forall|j: int| 0 <= j < i ==> #[trigger] out@[j] == s.fields@[j],
        decreases n - i,
    {
        let f = s.fields[i].ref_clone();
        out.push(f);
        i = i + 1;
    }
    let r = Schema { fields: out };
    proof {
        assert(r@ =~= s@);
    }
    r
}

/// Every output row of a selection is an input row that satisfies the
/// predicate, in input order, and every input row that satisfies the
/// predicate is kept: no false positives and no false negatives. The number
/// of output rows is the number of satisfying input rows.
pub proof fn lemma_selection_correct(b: BatchModel, pred: PlanExpr, out: BatchModel)
    requires
        batch_wf(b),
        out.columns.len() == b.columns.len(),
        out.num_rows == keep(mask_of(b, pred)).len(),
        forall|j: int|
            0 <= j < b.columns.len() ==> #[trigger] out.columns[j] == masked(
                b.columns[j],
                mask_of(b, pred),
            ),
    ensures
        forall|k: int|
            0 <= k < out.num_rows ==> 0 <= #[trigger] keep(mask_of(b, pred))[k] < b.num_rows
                && row_of(out, k) == row_of(b, keep(mask_of(b, pred))[k]) && eval_row(
                pred,
                row_of(b, keep(mask_of(b, pred))[k]),
            ) == Some(ValueModel::Boolean(true)),
        forall|i: int|
            0 <= i < b.num_rows && eval_row(pred, row_of(b, i)) == Some(
                ValueModel::Boolean(true),
            ) ==> keep(mask_of(b, pred)).contains(i),
{
    let m = mask_of(b, pred);
    lemma_keep_sound(m);
    assert forall|i: int|
        0 <= i < b.num_rows && eval_row(pred, row_of(b, i)) == Some(
            ValueModel::Boolean(true),
        ) implies keep(m).contains(i) by {
        assert(m[i]);
    }
    assert forall|k: int| 0 <= k < out.num_rows implies 0 <= #[trigger] keep(m)[k] < b.num_rows
        && row_of(out, k) == row_of(b, keep(m)[k]) && eval_row(pred, row_of(b, keep(m)[k]))
        == Some(ValueModel::Boolean(true)) by {
        let idx = keep(m)[k];
        assert(m[idx]);
        assert(row_of(out, k) =~= row_of(b, idx));
    }
}

} // verus!
