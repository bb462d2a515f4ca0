//! Logical plans: schema-validated, data-independent descriptions of a
//! query's transformation steps, built from the parsed statement against the
//! registered source's schema.

use vstd::prelude::*;
use crate::execution::types::{DataType, ScalarValue, ValueModel};
use crate::execution::schema::{Field, FieldModel, Schema};
use crate::execution::expr::{PlanExpr, expr_type, check_expr_type, eval_row};
use crate::execution::sqlast::{SqlExpr, SqlSelect, SqlSelectItem};
use crate::execution::numeral::{parse_number, parse_numeral};
use crate::execution::operators::copy_schema;
use crate::execution::error::ExecutionError;

verus! {

/// A node of the logical plan tree.
pub enum LogicalPlan {
    /// Reads a registered source; the node's schema is the source's.
    Scan { table: String, schema: Schema },
    /// Filters rows by a boolean predicate; the schema passes through.
    Selection { input: Box<LogicalPlan>, expr: PlanExpr },
    /// Computes one output column per expression under a precomputed schema.
    Projection { input: Box<LogicalPlan>, exprs: Vec<PlanExpr>, schema: Schema },
}

impl LogicalPlan {
    /// The schema of the batches this node produces.
    pub open spec fn out_schema(self) -> Seq<FieldModel>
        decreases self,
    {
        match self {
            LogicalPlan::Scan { schema, .. } => schema@,
            LogicalPlan::Selection { input, .. } => input.out_schema(),
            LogicalPlan::Projection { schema, .. } => schema@,
        }
    }

    /// A plan is well typed against a source schema when its scan carries
    /// exactly that schema, every predicate type-checks to a boolean, and
    /// every projected expression type-checks to its declared output field.
    pub open spec fn wt(self, source: Seq<FieldModel>) -> bool
        decreases self,
    {
        match self {
            LogicalPlan::Scan { schema, .. } => schema@ == source,
            LogicalPlan::Selection { input, expr } => input.wt(source) && expr_type(
                expr,
                input.out_schema(),
            ) == Some(DataType::Boolean),
            LogicalPlan::Projection { input, exprs, schema } => input.wt(source) && schema@.len()
                == exprs@.len() && (forall|j: int|
                0 <= j < exprs@.len() ==> expr_type(#[trigger] exprs@[j], input.out_schema())
                    == Some(schema@[j].data_type)),
        }
    }
}

/// Whether a compiled expression is the faithful translation of a SQL
/// expression against a schema: each column name resolves to the first field
/// bearing it, each numeral to its exact value, and the tree shape is kept.
pub open spec fn compiles_to(e: SqlExpr, schema: Seq<FieldModel>, pe: PlanExpr) -> bool
    decreases e,
{
    match e {
        SqlExpr::Column(name) => exists|i: int|
            0 <= i < schema.len() && pe == PlanExpr::Column(i as usize) && (
            #[trigger] schema[i]).name == name@ && (forall|j: int|
                0 <= j < i ==> (#[trigger] schema[j]).name != name@),
        SqlExpr::LiteralString(s) => pe matches PlanExpr::Literal(v) && v@ == crate::execution::types::ValueModel::Utf8(
            s@,
        ),
        SqlExpr::LiteralNumber(s) => pe matches PlanExpr::Literal(v) && parse_numeral(s@) == Some(
            v@,
        ),
        SqlExpr::LiteralBool(b) => pe == PlanExpr::Literal(ScalarValue::Boolean(b)),
        SqlExpr::Binary { left, op, right } => pe matches PlanExpr::Binary {
            left: pl,
            op: po,
            right: pr,
        } && po == op && compiles_to(*left, schema, *pl) && compiles_to(*right, schema, *pr),
    }
}

/// Whether every column reference of a SQL expression names a schema field
/// and every numeral denotes a value: exactly the condition under which the
/// expression compiles.
pub open spec fn resolvable(e: SqlExpr, schema: Seq<FieldModel>) -> bool
    decreases e,
{
    match e {
        SqlExpr::Column(name) => exists|j: int|
            0 <= j < schema.len() && (#[trigger] schema[j]).name == name@,
        SqlExpr::LiteralString(_) => true,
        SqlExpr::LiteralNumber(s) => parse_numeral(s@) is Some,
        SqlExpr::LiteralBool(_) => true,
        SqlExpr::Binary { left, op, right } => resolvable(*left, schema) && resolvable(
            *right,
            schema,
        ),
    }
}

/// Whether a SQL expression mentions a column name that no schema field
/// bears.
pub open spec fn has_unresolved_column(e: SqlExpr, schema: Seq<FieldModel>) -> bool
    decreases e,
{
    match e {
        SqlExpr::Column(name) => !(exists|j: int|
            0 <= j < schema.len() && (#[trigger] schema[j]).name == name@),
        SqlExpr::LiteralString(_) => false,
        SqlExpr::LiteralNumber(_) => false,
        SqlExpr::LiteralBool(_) => false,
        SqlExpr::Binary { left, op, right } => has_unresolved_column(*left, schema)
            || has_unresolved_column(*right, schema),
    }
}

/// Whether every numeral of a SQL expression denotes a value.
pub open spec fn numerals_ok(e: SqlExpr) -> bool
    decreases e,
{
    match e {
        SqlExpr::LiteralNumber(s) => parse_numeral(s@) is Some,
        SqlExpr::Binary { left, op, right } => numerals_ok(*left) && numerals_ok(*right),
        _ => true,
    }
}

/// Whether `n` is a column name the expression mentions that no schema field
/// bears.
pub open spec fn names_unresolved(e: SqlExpr, schema: Seq<FieldModel>, n: Seq<char>) -> bool
    decreases e,
{
    match e {
        SqlExpr::Column(name) => name@ == n && !(exists|j: int|
            0 <= j < schema.len() && (#[trigger] schema[j]).name == name@),
        SqlExpr::LiteralString(_) => false,
        SqlExpr::LiteralNumber(_) => false,
        SqlExpr::LiteralBool(_) => false,
        SqlExpr::Binary { left, op, right } => names_unresolved(*left, schema, n)
            || names_unresolved(*right, schema, n),
    }
}

/// Resolvability taken apart: an expression resolves exactly when none of its
/// columns is unresolved and all of its numerals denote values.
pub proof fn lemma_resolvable_parts(e: SqlExpr, schema: Seq<FieldModel>)
    ensures
        resolvable(e, schema) <==> (!has_unresolved_column(e, schema) && numerals_ok(e)),
    decreases e,
{
    match e {
        SqlExpr::Binary { left, op, right } => {
            lemma_resolvable_parts(*left, schema);
            lemma_resolvable_parts(*right, schema);
        },
        _ => {},
    }
}

/// Any two faithful translations of one SQL expression carry the same output
/// type: name resolution picks the first match and numerals denote one value,
/// so the computed type is a function of the SQL expression and the schema.
pub proof fn lemma_compiled_type_unique(
    e: SqlExpr,
    schema: Seq<FieldModel>,
    p1: PlanExpr,
    p2: PlanExpr,
)
    requires
        compiles_to(e, schema, p1),
        compiles_to(e, schema, p2),
    ensures
        expr_type(p1, schema) == expr_type(p2, schema),
    decreases e,
{
    match e {
        SqlExpr::Column(name) => {
            let i1 = choose|i: int|
                0 <= i < schema.len() && p1 == PlanExpr::Column(i as usize) && (
                #[trigger] schema[i]).name == name@ && (forall|j: int|
                    0 <= j < i ==> (#[trigger] schema[j]).name != name@);
            let i2 = choose|i: int|
                0 <= i < schema.len() && p2 == PlanExpr::Column(i as usize) && (
                #[trigger] schema[i]).name == name@ && (forall|j: int|
                    0 <= j < i ==> (#[trigger] schema[j]).name != name@);
            assert(i1 == i2);
        },
        SqlExpr::LiteralString(_) => {},
        SqlExpr::LiteralNumber(_) => {},
        SqlExpr::LiteralBool(_) => {},
        SqlExpr::Binary { left, op, right } => {
            let (l1, r1) = match p1 {
                PlanExpr::Binary { left: pl, op: _, right: pr } => (*pl, *pr),
                _ => arbitrary(),
            };
            let (l2, r2) = match p2 {
                PlanExpr::Binary { left: pl, op: _, right: pr } => (*pl, *pr),
                _ => arbitrary(),
            };
            lemma_compiled_type_unique(*left, schema, l1, l2);
            lemma_compiled_type_unique(*right, schema, r1, r2);
        },
    }
}

/// Any two faithful translations of one SQL expression evaluate identically
/// on every row: name resolution picks the first match and literals denote
/// one value, so the compiled form is unique up to values the evaluator
/// cannot tell apart.
pub proof fn lemma_compiled_eval_unique(
    e: SqlExpr,
    schema: Seq<FieldModel>,
    p1: PlanExpr,
    p2: PlanExpr,
    row: Seq<ValueModel>,
)
    requires
        compiles_to(e, schema, p1),
        compiles_to(e, schema, p2),
    ensures
        eval_row(p1, row) == eval_row(p2, row),
    decreases e,
{
    match e {
        SqlExpr::Column(name) => {
            let i1 = choose|i: int|
                0 <= i < schema.len() && p1 == PlanExpr::Column(i as usize) && (
                #[trigger] schema[i]).name == name@ && (forall|j: int|
                    0 <= j < i ==> (#[trigger] schema[j]).name != name@);
            let i2 = choose|i: int|
                0 <= i < schema.len() && p2 == PlanExpr::Column(i as usize) && (
                #[trigger] schema[i]).name == name@ && (forall|j: int|
                    0 <= j < i ==> (#[trigger] schema[j]).name != name@);
            assert(i1 == i2);
        },
        SqlExpr::LiteralString(_) => {},
        SqlExpr::LiteralNumber(_) => {},
        SqlExpr::LiteralBool(_) => {},
        SqlExpr::Binary { left, op, right } => {
            let (l1, r1) = match p1 {
                PlanExpr::Binary { left: pl, op: _, right: pr } => (*pl, *pr),
                _ => arbitrary(),
            };
            let (l2, r2) = match p2 {
                PlanExpr::Binary { left: pl, op: _, right: pr } => (*pl, *pr),
                _ => arbitrary(),
            };
            lemma_compiled_eval_unique(*left, schema, l1, l2, row);
            lemma_compiled_eval_unique(*right, schema, r1, r2, row);
        },
    }
}

/// Any two compilations of one select list agree in width and evaluate
/// identically, column for column, on every row.
pub proof fn lemma_items_eval_unique(
    items: Seq<SqlSelectItem>,
    schema: Seq<FieldModel>,
    x1: Seq<PlanExpr>,
    x2: Seq<PlanExpr>,
    row: Seq<ValueModel>,
)
    requires
        items_compile(items, schema, x1),
        items_compile(items, schema, x2),
    ensures
        x1.len() == x2.len(),
        forall|j: int|
            0 <= j < x1.len() ==> eval_row(#[trigger] x1[j], row) == eval_row(x2[j], row),
    decreases items.len(),
{
    if items.len() > 0 {
        match items.last() {
            SqlSelectItem::Wildcard => {
                let y1 = x1.take(x1.len() - schema.len());
                let y2 = x2.take(x2.len() - schema.len());
                lemma_items_eval_unique(items.drop_last(), schema, y1, y2, row);
                assert forall|j: int|
                    0 <= j < x1.len() implies eval_row(#[trigger] x1[j], row) == eval_row(
                    x2[j],
                    row,
                ) by {
                    if j < x1.len() - schema.len() {
                        assert(x1[j] == y1[j] && x2[j] == y2[j]);
                    } else {
                        let k = j - (x1.len() - schema.len());
                        assert(0 <= k < schema.len());
                        assert(x1[x1.len() - schema.len() + k] == PlanExpr::Column(k as usize));
                        assert(x2[x2.len() - schema.len() + k] == PlanExpr::Column(k as usize));
                        assert(x1[j] == PlanExpr::Column(k as usize));
                        assert(x2[j] == PlanExpr::Column(k as usize));
                    }
                }
            },
            SqlSelectItem::Expression(e) => {
                lemma_items_eval_unique(items.drop_last(), schema, x1.drop_last(), x2.drop_last(), row);
                lemma_compiled_eval_unique(e, schema, x1.last(), x2.last(), row);
                assert forall|j: int|
                    0 <= j < x1.len() implies eval_row(#[trigger] x1[j], row) == eval_row(
                    x2[j],
                    row,
                ) by {
                    if j < x1.len() - 1 {
                        assert(x1[j] == x1.drop_last()[j] && x2[j] == x2.drop_last()[j]);
                    }
                }
            },
        }
    }
}

/// Whether one select-list entry can be planned: a wildcard always, an
/// expression when it resolves and its translation type-checks.
pub open spec fn item_plannable(item: SqlSelectItem, schema: Seq<FieldModel>) -> bool {
    match item {
        SqlSelectItem::Wildcard => true,
        SqlSelectItem::Expression(e) => resolvable(e, schema) && (exists|pe: PlanExpr|
            #[trigger] compiles_to(e, schema, pe) && expr_type(pe, schema) is Some),
    }
}

/// Whether a whole SELECT can be planned against a schema: every select-list
/// entry is plannable and the predicate, when present, resolves to a boolean.
pub open spec fn select_plannable(select: SqlSelect, schema: Seq<FieldModel>) -> bool {
    &&& match select.selection {
        Some(p) => resolvable(p, schema) && (exists|pe: PlanExpr|
            #[trigger] compiles_to(p, schema, pe) && expr_type(pe, schema) == Some(
                DataType::Boolean,
            )),
        None => true,
    }
    &&& forall|k: int|
        0 <= k < select.projection@.len() ==> item_plannable(
            #[trigger] select.projection@[k],
            schema,
        )
}

/// Whether one select-list entry either plans, or fails only for an
/// unresolved column (all of its numerals denote values).
pub open spec fn item_plannable_or_unresolved(item: SqlSelectItem, schema: Seq<FieldModel>) -> bool {
    item_plannable(item, schema) || (item matches SqlSelectItem::Expression(e)
        && has_unresolved_column(e, schema) && numerals_ok(e))
}

/// Whether some part of the SELECT mentions an unresolved column.
pub open spec fn select_has_unresolved(select: SqlSelect, schema: Seq<FieldModel>) -> bool {
    ||| (select.selection matches Some(p) && has_unresolved_column(p, schema))
    ||| exists|k: int|
        0 <= k < select.projection@.len() && (#[trigger] select.projection@[k] matches SqlSelectItem::Expression(
            e,
        ) && has_unresolved_column(e, schema))
}

/// The unresolved-column scenario: every part of the SELECT either plans or
/// fails only for an unresolved column, and at least one part mentions one.
pub open spec fn select_unresolved_only(select: SqlSelect, schema: Seq<FieldModel>) -> bool {
    &&& match select.selection {
        Some(p) => (resolvable(p, schema) && (exists|pe: PlanExpr|
            #[trigger] compiles_to(p, schema, pe) && expr_type(pe, schema) == Some(
                DataType::Boolean,
            ))) || (has_unresolved_column(p, schema) && numerals_ok(p)),
        None => true,
    }
    &&& forall|k: int|
        0 <= k < select.projection@.len() ==> item_plannable_or_unresolved(
            #[trigger] select.projection@[k],
            schema,
        )
    &&& select_has_unresolved(select, schema)
}

/// Whether `n` is an unresolved column name some part of the SELECT mentions.
pub open spec fn select_names_unresolved(
    select: SqlSelect,
    schema: Seq<FieldModel>,
    n: Seq<char>,
) -> bool {
    ||| (select.selection matches Some(p) && names_unresolved(p, schema, n))
    ||| exists|k: int|
        0 <= k < select.projection@.len() && (#[trigger] select.projection@[k] matches SqlSelectItem::Expression(
            e,
        ) && names_unresolved(e, schema, n))
}

/// How one select-list expression names its output field: a plain column
/// reference keeps the referenced column's name and nullability; any other
/// expression carries a synthesized label and is not nullable.
pub open spec fn item_field(e: SqlExpr, schema: Seq<FieldModel>, f: FieldModel) -> bool {
    match e {
        SqlExpr::Column(name) => f.name == name@ && (exists|i: int|
            0 <= i < schema.len() && (#[trigger] schema[i]).name == name@ && (forall|j: int|
                0 <= j < i ==> (#[trigger] schema[j]).name != name@) && f.nullable
                == schema[i].nullable),
        _ => !f.nullable,
    }
}

/// The output fields a select list determines: one field per expression
/// entry, and the schema's own fields, in order, for a wildcard.
pub open spec fn items_fields(
    items: Seq<SqlSelectItem>,
    schema: Seq<FieldModel>,
    fields: Seq<FieldModel>,
) -> bool
    decreases items.len(),
{
    if items.len() == 0 {
        fields.len() == 0
    } else {
        match items.last() {
            SqlSelectItem::Wildcard => {
                &&& fields.len() >= schema.len()
                &&& items_fields(
                    items.drop_last(),
                    schema,
                    fields.take(fields.len() - schema.len()),
                )
                &&& forall|k: int|
                    0 <= k < schema.len() ==> #[trigger] fields[fields.len() - schema.len() + k]
                        == schema[k]
            },
            SqlSelectItem::Expression(e) => {
                &&& fields.len() >= 1
                &&& items_fields(items.drop_last(), schema, fields.drop_last())
                &&& item_field(e, schema, fields.last())
            },
        }
    }
}

/// The plan expressions a select list compiles to: one expression per plain
/// entry, a wildcard expanding to every schema column in order.
pub open spec fn items_compile(
    items: Seq<SqlSelectItem>,
    schema: Seq<FieldModel>,
    exprs: Seq<PlanExpr>,
) -> bool
    decreases items.len(),
{
    if items.len() == 0 {
        exprs.len() == 0
    } else {
        match items.last() {
            SqlSelectItem::Wildcard => {
                &&& exprs.len() >= schema.len()
                &&& items_compile(
                    items.drop_last(),
                    schema,
                    exprs.take(exprs.len() - schema.len()),
                )
                &&& forall|k: int|
                    0 <= k < schema.len() ==> #[trigger] exprs[exprs.len() - schema.len() + k]
                        == PlanExpr::Column(k as usize)
            },
            SqlSelectItem::Expression(e) => {
                &&& exprs.len() >= 1
                &&& items_compile(items.drop_last(), schema, exprs.drop_last())
                &&& compiles_to(e, schema, exprs.last())
            },
        }
    }
}

/// Whether a lowered scan, with its optional selection, matches the
/// statement's FROM and WHERE: the predicate, when present, is the faithful
/// translation of the WHERE clause, sitting directly on a scan.
pub open spec fn scan_compiles(
    selection: Option<SqlExpr>,
    schema: Seq<FieldModel>,
    plan: LogicalPlan,
) -> bool {
    match selection {
        Some(p) => plan matches LogicalPlan::Selection { input, expr } && compiles_to(
            p,
            schema,
            expr,
        ) && (*input matches LogicalPlan::Scan { .. }),
        None => plan matches LogicalPlan::Scan { .. },
    }
}

/// Whether a plan is the faithful compilation of a SELECT statement against a
/// schema: a projection whose expressions compile from the select list (with
/// wildcards expanded in schema order) over a scan filtered by the compiled
/// WHERE clause, when one is present.
pub open spec fn plan_compiles_select(
    select: SqlSelect,
    schema: Seq<FieldModel>,
    plan: LogicalPlan,
) -> bool {
    plan matches LogicalPlan::Projection { input, exprs, schema: out } && scan_compiles(
        select.selection,
        schema,
        *input,
    ) && items_compile(select.projection@, schema, exprs@) && items_fields(
        select.projection@,
        schema,
        out@,
    )
}

/// Resolves one SQL expression against a schema: column references become
/// indices of the first field bearing the name, numerals become their exact
/// values. Succeeds exactly when the expression is resolvable; an
/// unresolvable column name fails with an invalid-column error naming it, and
/// a malformed numeral fails with a general error.
pub fn compile_expr(e: &SqlExpr, schema: &Schema) -> (r: Result<PlanExpr, ExecutionError>)
    ensures
        (r matches Ok(_)) <==> resolvable(*e, schema@),
        r matches Ok(pe) ==> compiles_to(*e, schema@, pe),
        r matches Err(err) ==> (err matches ExecutionError::InvalidColumn(n) ==> !(exists|j: int|
            0 <= j < schema@.len() && (#[trigger] schema@[j]).name == n@)),
        has_unresolved_column(*e, schema@) && numerals_ok(*e) ==> (r matches Err(err)
            && err matches ExecutionError::InvalidColumn(n) && names_unresolved(*e, schema@, n@)),
    decreases *e,
{
    match e {
        SqlExpr::Column(name) => {
            match schema.index_of(name.as_str()) {
                Some(i) => {
                    proof {
                        assert(0 <= i < schema@.len() && schema@[i as int].name == name@ && (
                        forall|j: int| 0 <= j < i ==> (#[trigger] schema@[j]).name != name@));
                    }
                    Ok(PlanExpr::Column(i))
                },
                None => Err(ExecutionError::InvalidColumn(name.clone())),
            }
        },
        SqlExpr::LiteralString(s) => Ok(PlanExpr::Literal(ScalarValue::Utf8(s.clone()))),
        SqlExpr::LiteralNumber(s) => {
            match parse_number(s.as_str()) {
                Some(v) => Ok(PlanExpr::Literal(v)),
                None => Err(ExecutionError::General("invalid numeric literal".to_owned())),
            }
        },
        SqlExpr::LiteralBool(b) => Ok(PlanExpr::Literal(ScalarValue::Boolean(*b))),
        SqlExpr::Binary { left, op, right } => {
            let pl = match compile_expr(left, schema) {
                Ok(x) => x,
                Err(err) => {
                    proof {
                        lemma_resolvable_parts(**left, schema@);
                    }
                    return Err(err);
                },
            };
            let pr = match compile_expr(right, schema) {
                Ok(x) => x,
                Err(err) => {
                    proof {
                        lemma_resolvable_parts(**left, schema@);
                        lemma_resolvable_parts(**right, schema@);
                    }
                    return Err(err);
                },
            };
            proof {
                lemma_resolvable_parts(**left, schema@);
                lemma_resolvable_parts(**right, schema@);
            }
            Ok(PlanExpr::Binary { left: Box::new(pl), op: *op, right: Box::new(pr) })
        },
    }
}

/// Builds the logical plan of a single-table SELECT against the source's
/// schema: a scan, wrapped in a selection when a WHERE clause is present,
/// wrapped in a projection — filter before project, so the predicate may
/// reference columns the projection drops. The produced plan is well typed
/// and its output schema carries one field per projected expression.
#[verifier::rlimit(100)]
#[verifier::spinoff_prover]
pub fn create_logical_plan(select: &SqlSelect, table: String, schema: &Schema) -> (r: Result<
    LogicalPlan,
    ExecutionError,
>)
    ensures
        r matches Ok(plan) ==> plan.wt(schema@) && plan matches LogicalPlan::Projection {
            input: _,
            exprs: _,
            schema: _,
        },
        r matches Err(err) ==> (err matches ExecutionError::InvalidColumn(n) ==> !(exists|j: int|
            0 <= j < schema@.len() && (#[trigger] schema@[j]).name == n@)),
        (r is Ok) <==> select_plannable(*select, schema@),
        r matches Ok(plan) ==> plan_compiles_select(*select, schema@, plan),
        select_unresolved_only(*select, schema@) ==> (r matches Err(err)
            && err matches ExecutionError::InvalidColumn(n) && select_names_unresolved(
            *select,
            schema@,
            n@,
        )),
{
    let mut plan = LogicalPlan::Scan { table, schema: copy_schema(schema) };
    proof {
        assert(plan.wt(schema@));
        assert(plan.out_schema() == schema@);
    }
    match &select.selection {
        Some(pred) => {
            let compiled = match compile_expr(pred, schema) {
                Ok(x) => x,
                Err(err) => {
                    proof {
                        lemma_resolvable_parts(*pred, schema@);
                    }
                    return Err(err);
                },
            };
            let t = check_expr_type(&compiled, schema);
            match t {
                Some(DataType::Boolean) => {
                    proof {
                        assert(compiles_to(*pred, schema@, compiled) && expr_type(
                            compiled,
                            schema@,
                        ) == Some(DataType::Boolean));
                        lemma_resolvable_parts(*pred, schema@);
                        assert(!has_unresolved_column(*pred, schema@));
                    }
                    plan = LogicalPlan::Selection { input: Box::new(plan), expr: compiled };
                    proof {
                        assert(plan.wt(schema@));
                        assert(plan.out_schema() == schema@);
                        assert(scan_compiles(select.selection, schema@, plan));
                    }
                },
                _ => {
                    proof {
                        lemma_resolvable_parts(*pred, schema@);
                        if resolvable(*pred, schema@) && (exists|pe: PlanExpr|
                            #[trigger] compiles_to(*pred, schema@, pe) && expr_type(pe, schema@)
                                == Some(DataType::Boolean)) {
                            let pe = choose|pe: PlanExpr|
                                #[trigger] compiles_to(*pred, schema@, pe) && expr_type(
                                    pe,
                                    schema@,
                                ) == Some(DataType::Boolean);
                            lemma_compiled_type_unique(*pred, schema@, compiled, pe);
                        }
                    }
                    return Err(
                        ExecutionError::General(
                            "WHERE predicate does not resolve to a boolean".to_owned(),
                        ),
                    );
                },
            }
        },
        None => {},
    }
    // the selection keeps the scan's schema, so expressions still resolve
    // against the source schema
    let nitems = select.projection.len();
    let mut exprs: Vec<PlanExpr> = Vec::new();
    let mut fields: Vec<Field> = Vec::new();
    let mut i: usize = 0;
    while i < nitems
        invariant
            i <= nitems,
            nitems == select.projection@.len(),
            exprs@.len() == fields@.len(),
            plan.wt(schema@),
            plan.out_schema() == schema@,
            scan_compiles(select.selection, schema@, plan),
            match select.selection {
                Some(p) => resolvable(p, schema@) && (exists|pe: PlanExpr|
                    #[trigger] compiles_to(p, schema@, pe) && expr_type(pe, schema@) == Some(
                        DataType::Boolean,
                    )),
                None => true,
            },
            match select.selection {
                Some(p) => !has_unresolved_column(p, schema@),
                None => true,
            },
            forall|k: int|
                0 <= k < i ==> item_plannable(#[trigger] select.projection@[k], schema@),
            forall|k: int|
                0 <= k < i ==> (#[trigger] select.projection@[k] matches SqlSelectItem::Expression(
                    e,
                ) ==> !has_unresolved_column(e, schema@)),
            items_compile(select.projection@.take(i as int), schema@, exprs@),
            items_fields(
                select.projection@.take(i as int),
                schema@,
                fields@.map_values(|f: Field| f@),
            ),
            forall|j: int|
                0 <= j < exprs@.len() ==> expr_type(#[trigger] exprs@[j], schema@) == Some(
                    fields@[j]@.data_type,
                ),
        decreases nitems - i,
    {
        match &select.projection[i] {
            SqlSelectItem::Wildcard => {
                let ghost pre_exprs = exprs@;
                let ghost pre_fields = fields@.map_values(|f: Field| f@);
                let ncols = schema.len();
                let mut k: usize = 0;
                while k < ncols
                    invariant
                        k <= ncols,
                        ncols == schema@.len(),
                        exprs@.len() == fields@.len(),
                        exprs@.len() == pre_exprs.len() + k,
                        pre_fields.len() == pre_exprs.len(),
                        exprs@.take(pre_exprs.len() as int) == pre_exprs,
                        fields@.map_values(|f: Field| f@).take(pre_fields.len() as int)
                            == pre_fields,
                        forall|m: int|
                            0 <= m < k ==> #[trigger] exprs@[pre_exprs.len() + m]
                                == PlanExpr::Column(m as usize),
                        forall|m: int|
                            0 <= m < k ==> (#[trigger] fields@[pre_fields.len() + m])@
                                == schema@[m],
                        forall|j: int|
                            0 <= j < exprs@.len() ==> expr_type(#[trigger] exprs@[j], schema@)
                                == Some(fields@[j]@.data_type),
                    decreases ncols - k,
                {
                    exprs.push(PlanExpr::Column(k));
                    fields.push(schema.field(k).ref_clone());
                    proof {
                        assert(exprs@.take(pre_exprs.len() as int) =~= pre_exprs);
                        assert(fields@.map_values(|f: Field| f@).take(pre_fields.len() as int)
                            =~= pre_fields);
                    }
                    k = k + 1;
                }
                proof {
                    assert(select.projection@.take(i + 1).drop_last() =~= select.projection@.take(
                        i as int,
                    ));
                    assert(select.projection@.take(i + 1).last() == select.projection@[i as int]);
                    assert(exprs@.take(exprs@.len() - schema@.len()) =~= pre_exprs);
                    let fm = fields@.map_values(|f: Field| f@);
                    assert(fm.take(fm.len() - schema@.len()) =~= pre_fields);
                    assert(items_compile(select.projection@.take(i + 1), schema@, exprs@));
                    assert(items_fields(select.projection@.take(i + 1), schema@, fm));
                    assert(item_plannable(select.projection@[i as int], schema@));
                }
            },
            SqlSelectItem::Expression(e) => {
                let compiled = match compile_expr(e, schema) {
                    Ok(x) => x,
                    Err(err) => {
                        proof {
                            lemma_resolvable_parts(*e, schema@);
                            if select_plannable(*select, schema@) {
                                assert(item_plannable(select.projection@[i as int], schema@));
                            }
                            if select_unresolved_only(*select, schema@) {
                                assert(item_plannable_or_unresolved(
                                    select.projection@[i as int],
                                    schema@,
                                ));
                            }
                        }
                        return Err(err);
                    },
                };
                let t = match check_expr_type(&compiled, schema) {
                    Some(t) => t,
                    None => {
                        proof {
                            lemma_resolvable_parts(*e, schema@);
                            if item_plannable(select.projection@[i as int], schema@) {
                                let pe = choose|pe: PlanExpr|
                                    #[trigger] compiles_to(*e, schema@, pe) && expr_type(
                                        pe,
                                        schema@,
                                    ) is Some;
                                lemma_compiled_type_unique(*e, schema@, compiled, pe);
                            }
                        }
                        return Err(
                            ExecutionError::General(
                                "projected expression does not type-check".to_owned(),
                            ),
                        );
                    },
                };
                let label: String = match e {
                    SqlExpr::Column(name) => name.clone(),
                    _ => "expr".to_owned(),
                };
                let nullable = match e {
                    SqlExpr::Column(cname) => {
                        match schema.index_of(cname.as_str()) {
                            Some(ix) => schema.field(ix).nullable,
                            None => false,
                        }
                    },
                    _ => false,
                };
                let ghost pre_exprs = exprs@;
                let ghost pre_fields = fields@.map_values(|f: Field| f@);
                let ghost new_field = FieldModel { name: label@, data_type: t, nullable };
                proof {
                    assert(item_field(*e, schema@, new_field));
                }
                exprs.push(compiled);
                fields.push(Field::new(label, t, nullable));
                proof {
                    assert(select.projection@.take(i + 1).drop_last() =~= select.projection@.take(
                        i as int,
                    ));
                    assert(select.projection@.take(i + 1).last() == select.projection@[i as int]);
                    assert(exprs@.drop_last() =~= pre_exprs);
                    let fm = fields@.map_values(|f: Field| f@);
                    assert(fm.drop_last() =~= pre_fields);
                    assert(fm.last() == new_field);
                    assert(items_compile(select.projection@.take(i + 1), schema@, exprs@));
                    assert(items_fields(select.projection@.take(i + 1), schema@, fm));
                    assert(item_plannable(select.projection@[i as int], schema@));
                    lemma_resolvable_parts(*e, schema@);
                    assert(!has_unresolved_column(*e, schema@));
                }
            },
        }
        i = i + 1;
    }
    proof {
        assert(select.projection@.take(nitems as int) =~= select.projection@);
        assert(select_plannable(*select, schema@));
        assert(!select_has_unresolved(*select, schema@));
        assert(items_fields(select.projection@, schema@, fields@.map_values(|f: Field| f@)));
    }
    let out_schema = Schema::new(fields);
    let projection = LogicalPlan::Projection {
        input: Box::new(plan),
        exprs,
        schema: out_schema,
    };
    proof {
        assert(plan_compiles_select(*select, schema@, projection));
    }
    Ok(projection)
}

} // verus!
