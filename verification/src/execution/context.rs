//! The execution context: the name-to-source registry, the query entry point,
//! and the pull-based result stream.

use vstd::prelude::*;
use crate::execution::types::DataType;
use crate::execution::schema::{FieldModel, Schema};
use crate::execution::batch::{Batch, BatchModel, batch_wf};
use crate::execution::expr::{PlanExpr, eval_row, expr_type};
use crate::execution::operators::{
    copy_schema, keep, mask_of, masked, select_batch, project_batch,
};
use crate::execution::plan::{
    LogicalPlan, create_logical_plan, compiles_to, items_compile, items_fields,
    lemma_compiled_eval_unique, lemma_items_eval_unique,
};
use crate::execution::sqlast::{parse_select, SqlSelect};
use crate::execution::datasource::{DataSource, MemDataSource};
use crate::execution::error::ExecutionError;

verus! {

/// What a selection stage leaves of a batch: the schema untouched, each
/// column masked down to the rows where the predicate holds.
pub open spec fn selected(pred: PlanExpr, b: BatchModel, out: BatchModel) -> bool {
    &&& out.schema == b.schema
    &&& out.columns.len() == b.columns.len()
    &&& out.num_rows == keep(mask_of(b, pred)).len()
    &&& forall|j: int|
        0 <= j < b.columns.len() ==> #[trigger] out.columns[j] == masked(
            b.columns[j],
            mask_of(b, pred),
        )
}

/// What a projection stage makes of a batch: one column per expression, each
/// holding the expression's value on every row, under the precomputed schema.
pub open spec fn projected(
    exprs: Seq<PlanExpr>,
    schema: Seq<FieldModel>,
    b: BatchModel,
    out: BatchModel,
) -> bool {
    &&& out.schema == schema
    &&& out.columns.len() == exprs.len()
    &&& out.num_rows == b.num_rows
    &&& forall|j: int| 0 <= j < exprs.len() ==> (#[trigger] out.columns[j]).len() == b.num_rows
    &&& forall|j: int, i: int|
        0 <= j < exprs.len() && 0 <= i < b.num_rows ==> eval_row(
            #[trigger] exprs[j],
            row_of_model(b, i),
        ) == Some(#[trigger] out.columns[j][i])
}

/// Row `i` of a modeled batch (re-exported shape used by the stream spec).
pub open spec fn row_of_model(b: BatchModel, i: int) -> Seq<crate::execution::types::ValueModel> {
    crate::execution::batch::row_of(b, i)
}

/// A pulled batch is the stream's transformation of some well-formed source
/// batch that carries the declared schema.
pub open spec fn pulled_from_source(stream: ResultStream, ob: BatchModel) -> bool {
    exists|b0: BatchModel|
        batch_wf(b0) && b0.schema == stream.source_schema@ && #[trigger] stream_transforms(
            stream,
            b0,
            ob,
        )
}

/// A stream is the faithful compilation of a SELECT statement when its
/// predicate compiles from the statement's WHERE clause, its projected
/// expressions compile from the select list — wildcards expanded in schema
/// order — and its output schema carries the fields the select list
/// determines, all against the stream's captured source schema.
pub open spec fn stream_compiles(sel: SqlSelect, rs: ResultStream) -> bool {
    &&& match sel.selection {
        Some(p) => rs.selection matches Some(pe) && compiles_to(p, rs.source_schema@, pe),
        None => rs.selection is None,
    }
    &&& items_compile(sel.projection@, rs.source_schema@, rs.proj_exprs@)
    &&& items_fields(sel.projection@, rs.source_schema@, rs.schema@)
}

/// The per-pull transformation a stream applies to one source batch.
pub open spec fn stream_transforms(stream: ResultStream, b: BatchModel, out: BatchModel) -> bool {
    match stream.selection {
        Some(pred) => exists|mid: BatchModel|
            #[trigger] selected(pred, b, mid) && projected(
                stream.proj_exprs@,
                stream.schema@,
                mid,
                out,
            ),
        None => projected(stream.proj_exprs@, stream.schema@, b, out),
    }
}

/// The stateful iterator a query call returns: pulling through
/// [`ExecutionContext::next_batch`] is its sole advancing operation, and
/// exhaustion is terminal. The registry keeps exclusive ownership of every
/// source; a pull borrows the scanned source only for its own duration.
pub struct ResultStream {
    /// Which registry entry the scan reads.
    pub source_index: usize,
    /// The source's declared schema, captured at plan time.
    pub source_schema: Schema,
    /// The selection predicate, when the statement has a WHERE clause.
    pub selection: Option<PlanExpr>,
    /// The projected output expressions.
    pub proj_exprs: Vec<PlanExpr>,
    /// The precomputed output schema: one field per projected expression.
    pub schema: Schema,
    /// Whether exhaustion has been reported.
    pub done: bool,
}

impl ResultStream {
    /// A stream is well typed when its predicate resolves to a boolean and
    /// each projected expression to its declared output field, all against
    /// the captured source schema.
    pub open spec fn wt(self) -> bool {
        &&& match self.selection {
            Some(pred) => expr_type(pred, self.source_schema@) == Some(DataType::Boolean),
            None => true,
        }
        &&& self.schema@.len() == self.proj_exprs@.len()
        &&& forall|j: int|
            0 <= j < self.proj_exprs@.len() ==> expr_type(
                #[trigger] self.proj_exprs@[j],
                self.source_schema@,
            ) == Some(self.schema@[j].data_type)
    }

    /// The precomputed output schema of the stream.
    pub fn out_schema(&self) -> (r: &Schema)
        ensures
            r@ == self.schema@,
    {
        &self.schema
    }
}

/// Applies a stream's operator pipeline to one source batch: the batch is
/// checked against the stream's declared source schema — a violation is an
/// internal failure, reported before any data flows — then filtered by the
/// predicate, when one is present, and projected. Succeeds on every
/// well-formed conforming batch when the stream is well typed, and the output
/// is exactly the stream's transformation of the batch.
pub fn apply_stream(stream: &ResultStream, b: Batch) -> (r: Result<Batch, ExecutionError>)
    ensures
        r matches Err(e) ==> e matches ExecutionError::InternalError(_),
        r matches Ok(out) ==> batch_wf(b@) && b@.schema == stream.source_schema@
            && stream_transforms(*stream, b@, out@),
        stream.wt() && b.wt() && b@.schema == stream.source_schema@ ==> r is Ok,
{
    if !(b.check_wf() && b.schema.matches(&stream.source_schema)) {
        return Err(
            ExecutionError::InternalError(
                "source produced a batch that violates its declared schema".to_owned(),
            ),
        );
    }
    proof {
        b.lemma_wt_wf();
    }
    let ghost b0 = b@;
    let staged = match &stream.selection {
        Some(pred) => {
            let filtered = match select_batch(pred, &b) {
                Ok(x) => x,
                Err(e) => {
                    return Err(e);
                },
            };
            proof {
                assert(selected(*pred, b0, filtered@));
            }
            filtered
        },
        None => b,
    };
    let out = match project_batch(&stream.proj_exprs, &stream.schema, &staged) {
        Ok(x) => x,
        Err(e) => {
            return Err(e);
        },
    };
    proof {
        assert(projected(stream.proj_exprs@, stream.schema@, staged@, out@));
        assert(stream_transforms(*stream, b0, out@));
    }
    Ok(out)
}

/// The process-facing entry point: owns the name-to-source registry, accepts
/// SQL text, and hands back a result stream.
pub struct ExecutionContext<S: DataSource> {
    /// The registered sources, each under its unique name.
    pub registry: Vec<(String, S)>,
}

impl<S: DataSource> ExecutionContext<S> {
    /// Whether a name is already bound.
    pub open spec fn has_name(self, n: Seq<char>) -> bool {
        exists|i: int| 0 <= i < self.registry@.len() && (#[trigger] self.registry@[i]).0@ == n
    }

    /// An empty context.
    pub fn new() -> (r: Self)
        ensures
            r.registry@.len() == 0,
    {
        ExecutionContext { registry: Vec::new() }
    }

    /// Registers a source under a name. Fails with a duplicate-name error —
    /// and leaves the registry untouched, so the first registration stays
    /// active — exactly when the name is already bound.
    pub fn register(&mut self, name: String, source: S) -> (r: Result<(), ExecutionError>)
        ensures
            (r matches Ok(())) <==> !old(self).has_name(name@),
            match r {
                Ok(()) => final(self).registry@ == old(self).registry@.push((name, source)),
                Err(e) => *final(self) == *old(self) && (e matches ExecutionError::DuplicateName(n)
                    && n@ == name@),
            },
    {
        let n = self.registry.len();
        let mut i: usize = 0;
        while i < n
            invariant
                i <= n,
                n == self.registry@.len(),
                forall|j: int| 0 <= j < i ==> (#[trigger] self.registry@[j]).0@ != name@,
                *self == *old(self),
            decreases n - i,
        {
            if self.registry[i].0 == name {
                return Err(ExecutionError::DuplicateName(name));
            }
            i = i + 1;
        }
        self.registry.push((name, source));
        Ok(())
    }

    /// Resolves a table name to its registry position.
    pub fn find_source(&self, name: &String) -> (r: Option<usize>)
        ensures
            match r {
                Some(i) => i < self.registry@.len() && self.registry@[i as int].0@ == name@,
                None => !self.has_name(name@),
            },
    {
        let n = self.registry.len();
        let mut i: usize = 0;
        while i < n
            invariant
                i <= n,
                n == self.registry@.len(),
                forall|j: int| 0 <= j < i ==> (#[trigger] self.registry@[j]).0@ != name@,
            decreases n - i,
        {
            if self.registry[i].0 == *name {
                return Some(i);
            }
            i = i + 1;
        }
        None
    }

    /// Builds a stream from lowered plan pieces, re-checking every expression
    /// against the captured source schema so the stream is well typed by
    /// construction.
    fn assemble_stream(
        source_index: usize,
        source_schema: Schema,
        selection: Option<PlanExpr>,
        proj_exprs: Vec<PlanExpr>,
        schema: Schema,
    ) -> (r: Result<ResultStream, ExecutionError>)
        ensures
            r matches Ok(rs) ==> rs.wt() && !rs.done && rs.source_index == source_index
                && rs.source_schema == source_schema && rs.selection == selection
                && rs.proj_exprs == proj_exprs && rs.schema == schema,
            r matches Err(e) ==> e matches ExecutionError::InternalError(_),
    {
        match &selection {
            Some(pred) => {
                match crate::execution::expr::check_expr_type(pred, &source_schema) {
                    Some(DataType::Boolean) => {},
                    _ => {
                        return Err(
                            ExecutionError::InternalError(
                                "plan predicate does not resolve to a boolean".to_owned(),
                            ),
                        );
                    },
                }
            },
            None => {},
        }
        let n = proj_exprs.len();
        if n != schema.len() {
            return Err(
                ExecutionError::InternalError(
                    "plan schema does not match its expressions".to_owned(),
                ),
            );
        }
        let mut j: usize = 0;
        while j < n
            invariant
                j <= n,
                n == proj_exprs@.len() == schema@.len(),
                forall|k: int|
                    0 <= k < j ==> expr_type(#[trigger] proj_exprs@[k], source_schema@) == Some(
                        schema@[k].data_type,
                    ),
            decreases n - j,
        {
            let ok = match crate::execution::expr::check_expr_type(&proj_exprs[j], &source_schema) {
                Some(t) => t == schema.field(j).data_type,
                None => false,
            };
            if !ok {
                return Err(
                    ExecutionError::InternalError(
                        "plan expression does not match its output field".to_owned(),
                    ),
                );
            }
            j = j + 1;
        }
        Ok(ResultStream { source_index, source_schema, selection, proj_exprs, schema, done: false })
    }

    /// Accepts a single SELECT statement, resolves it against the registry,
    /// and returns the result stream rooted at a scan of the named source.
    /// Fails with the parser's diagnostic on malformed SQL, an
    /// invalid-column error naming an unresolved column, and a general or
    /// unsupported-shape error otherwise; no batch is produced on failure.
    pub fn sql(&self, sql_text: &str) -> (r: Result<ResultStream, ExecutionError>)
        ensures
            r matches Ok(rs) ==> {
                &&& rs.wt()
                &&& !rs.done
                &&& rs.source_index < self.registry@.len()
                &&& exists|sel: SqlSelect|
                    #[trigger] stream_compiles(sel, rs) && self.registry@[rs.source_index as int].0@
                        == sel.table@
            },
    {
        let select = match parse_select(sql_text) {
            Ok(s) => s,
            Err(e) => {
                return Err(e);
            },
        };
        let idx = match self.find_source(&select.table) {
            Some(i) => i,
            None => {
                let mut msg = "no registered table named ".to_owned();
                msg.append(select.table.as_str());
                return Err(ExecutionError::General(msg));
            },
        };
        let schema = self.registry[idx].1.schema();
        let source_schema = copy_schema(schema);
        let plan = match create_logical_plan(&select, select.table.clone(), schema) {
            Ok(p) => p,
            Err(e) => {
                return Err(e);
            },
        };
        match plan {
            LogicalPlan::Projection { input, exprs, schema: out_schema } => {
                proof {
                    assert(crate::execution::plan::scan_compiles(select.selection, schema@, *input));
                    assert(items_compile(select.projection@, schema@, exprs@));
                    assert(items_fields(select.projection@, schema@, out_schema@));
                }
                match *input {
                    LogicalPlan::Selection { input: inner, expr } => {
                        match *inner {
                            LogicalPlan::Scan { .. } => {
                                proof {
                                    assert(select.selection matches Some(p) && compiles_to(
                                        p,
                                        schema@,
                                        expr,
                                    ));
                                }
                                let r = Self::assemble_stream(
                                    idx,
                                    source_schema,
                                    Some(expr),
                                    exprs,
                                    out_schema,
                                );
                                match r {
                                    Ok(rs) => {
                                        proof {
                                            assert(stream_compiles(select, rs));
                                        }
                                        Ok(rs)
                                    },
                                    Err(e) => Err(e),
                                }
                            },
                            _ => Err(
                                ExecutionError::NotImplemented(
                                    "plan shape is not supported".to_owned(),
                                ),
                            ),
                        }
                    },
                    LogicalPlan::Scan { .. } => {
                        let r = Self::assemble_stream(idx, source_schema, None, exprs, out_schema);
                        match r {
                            Ok(rs) => {
                                proof {
                                    assert(stream_compiles(select, rs));
                                }
                                Ok(rs)
                            },
                            Err(e) => Err(e),
                        }
                    },
                    _ => Err(
                        ExecutionError::NotImplemented("plan shape is not supported".to_owned()),
                    ),
                }
            },
            _ => Err(ExecutionError::NotImplemented("plan shape is not supported".to_owned())),
        }
    }

    /// Pulls the next batch of a stream: takes one batch from the scanned
    /// source, checks it against the declared schema, filters it when a
    /// predicate is present, projects it, and hands it up. Exhaustion is
    /// terminal: once `None` has been reported, every further pull reports
    /// `None` without touching the source.
    #[verifier::rlimit(60)]
    pub fn next_batch(&mut self, stream: &mut ResultStream) -> (r: Result<
        Option<Batch>,
        ExecutionError,
    >)
        ensures
            final(self).registry@.len() == old(self).registry@.len(),
            final(stream).source_index == old(stream).source_index,
            final(stream).source_schema == old(stream).source_schema,
            final(stream).selection == old(stream).selection,
            final(stream).proj_exprs == old(stream).proj_exprs,
            final(stream).schema == old(stream).schema,
            old(stream).done ==> (r matches Ok(o) && o is None && *final(self) == *old(self)
                && *final(stream) == *old(stream)),
            !old(stream).done && old(stream).source_index >= old(self).registry@.len() ==> (
            r matches Err(e) && e matches ExecutionError::InternalError(_)),
            forall|k: int|
                0 <= k < old(self).registry@.len() && k != old(stream).source_index
                    ==> final(self).registry@[k] == old(self).registry@[k],
            old(stream).source_index < old(self).registry@.len() ==> final(self).registry@[old(
                stream,
            ).source_index as int].0 == old(self).registry@[old(stream).source_index as int].0,
            match r {
                Ok(Some(ob)) => {
                    &&& !old(stream).done && !final(stream).done
                    &&& old(stream).source_index < old(self).registry@.len()
                    &&& pulled_from_source(*old(stream), ob@)
                },
                Ok(None) => final(stream).done,
                Err(_) => true,
            },
    {
        if stream.done {
            return Ok(None);
        }
        let i = stream.source_index;
        if i >= self.registry.len() {
            return Err(ExecutionError::InternalError("stream source is gone".to_owned()));
        }
        let (name, mut source) = self.registry.remove(i);
        let pulled = source.next();
        self.registry.insert(i, (name, source));
        let b = match pulled {
            Ok(Some(b)) => b,
            Ok(None) => {
                stream.done = true;
                return Ok(None);
            },
            Err(e) => {
                return Err(e);
            },
        };
        let ghost b0 = b@;
        let out = match apply_stream(stream, b) {
            Ok(x) => x,
            Err(e) => {
                return Err(e);
            },
        };
        proof {
            assert(*stream == *old(stream));
            assert(pulled_from_source(*old(stream), out@));
        }
        Ok(Some(out))
    }
}

/// One statement, one behavior: two streams compiled from the same SELECT
/// against the same source schema, under the same output schema, transform
/// every source batch identically — so issuing one statement twice against
/// equal source states yields identical batch sequences, pull for pull.
pub proof fn lemma_same_select_same_results(
    sel: SqlSelect,
    rs1: ResultStream,
    rs2: ResultStream,
    b: BatchModel,
    o1: BatchModel,
    o2: BatchModel,
)
    requires
        stream_compiles(sel, rs1),
        stream_compiles(sel, rs2),
        rs1.source_schema@ == rs2.source_schema@,
        rs1.schema@ == rs2.schema@,
        stream_transforms(rs1, b, o1),
        stream_transforms(rs2, b, o2),
    ensures
        o1 =~~= o2,
{
    let schema = rs1.source_schema@;
    lemma_items_eval_unique(sel.projection@, schema, rs1.proj_exprs@, rs2.proj_exprs@, Seq::empty());
    match sel.selection {
        Some(p) => {
            let p1 = rs1.selection->0;
            let p2 = rs2.selection->0;
            assert forall|i: int| 0 <= i < b.num_rows implies mask_of(b, p1)[i] == mask_of(
                b,
                p2,
            )[i] by {
                lemma_compiled_eval_unique(p, schema, p1, p2, row_of_model(b, i));
            }
            assert(mask_of(b, p1) =~= mask_of(b, p2));
            let mid1 = choose|mid: BatchModel|
                #[trigger] selected(p1, b, mid) && projected(rs1.proj_exprs@, rs1.schema@, mid, o1);
            let mid2 = choose|mid: BatchModel|
                #[trigger] selected(p2, b, mid) && projected(rs2.proj_exprs@, rs2.schema@, mid, o2);
            assert(mid1 =~~= mid2);
            assert forall|j: int| 0 <= j < o1.columns.len() implies o1.columns[j] =~= o2.columns[j] by {
                assert forall|i: int| 0 <= i < o1.columns[j].len() implies o1.columns[j][i]
                    == o2.columns[j][i] by {
                    lemma_items_eval_unique(
                        sel.projection@,
                        schema,
                        rs1.proj_exprs@,
                        rs2.proj_exprs@,
                        row_of_model(mid1, i),
                    );
                    assert(eval_row(rs1.proj_exprs@[j], row_of_model(mid1, i)) == Some(
                        o1.columns[j][i],
                    ));
                    assert(eval_row(rs2.proj_exprs@[j], row_of_model(mid2, i)) == Some(
                        o2.columns[j][i],
                    ));
                }
            }
            assert(o1 =~~= o2);
        },
        None => {
            assert forall|j: int| 0 <= j < o1.columns.len() implies o1.columns[j] =~= o2.columns[j] by {
                assert forall|i: int| 0 <= i < o1.columns[j].len() implies o1.columns[j][i]
                    == o2.columns[j][i] by {
                    lemma_items_eval_unique(
                        sel.projection@,
                        schema,
                        rs1.proj_exprs@,
                        rs2.proj_exprs@,
                        row_of_model(b, i),
                    );
                    assert(eval_row(rs1.proj_exprs@[j], row_of_model(b, i)) == Some(
                        o1.columns[j][i],
                    ));
                    assert(eval_row(rs2.proj_exprs@[j], row_of_model(b, i)) == Some(
                        o2.columns[j][i],
                    ));
                }
            }
            assert(o1 =~~= o2);
        },
    }
}

impl ExecutionContext<MemDataSource> {
    /// Pulls the next batch of a stream over the in-memory registry. Unlike
    /// the generic pull, the in-memory source's own contract pins everything:
    /// on a live stream the result is exactly the stream's transformation of
    /// the scanned source's first unread batch — or `None`, terminally,
    /// exactly when nothing is unread — and the source advances by that one
    /// batch. A live pull over a well-typed stream and a conforming source
    /// never fails.
    pub fn next_batch_mem(&mut self, stream: &mut ResultStream) -> (r: Result<
        Option<Batch>,
        ExecutionError,
    >)
        ensures
            final(self).registry@.len() == old(self).registry@.len(),
            final(stream).source_index == old(stream).source_index,
            final(stream).source_schema == old(stream).source_schema,
            final(stream).selection == old(stream).selection,
            final(stream).proj_exprs == old(stream).proj_exprs,
            final(stream).schema == old(stream).schema,
            old(stream).done ==> (r matches Ok(o) && o is None && *final(self) == *old(self)
                && *final(stream) == *old(stream)),
            !old(stream).done && old(stream).source_index >= old(self).registry@.len() ==> (
            r matches Err(e) && e matches ExecutionError::InternalError(_)),
            forall|k: int|
                0 <= k < old(self).registry@.len() && k != old(stream).source_index
                    ==> final(self).registry@[k] == old(self).registry@[k],
            ({
                let i = old(stream).source_index as int;
                !old(stream).done && i < old(self).registry@.len() ==> {
                    let src = old(self).registry@[i].1;
                    &&& final(self).registry@[i].0 == old(self).registry@[i].0
                    &&& match r {
                        Ok(Some(ob)) => src.remaining().len() > 0 && stream_transforms(
                            *old(stream),
                            src.remaining()[0],
                            ob@,
                        ) && final(self).registry@[i].1.remaining()
                            == src.remaining().drop_first() && !final(stream).done,
                        Ok(None) => src.remaining().len() == 0 && final(self).registry@[i].1
                            == src && final(stream).done,
                        Err(e) => (e matches ExecutionError::InternalError(_))
                            && final(self).registry@[i].1.remaining()
                            == src.remaining().drop_first(),
                    }
                }
            }),
            ({
                let i = old(stream).source_index as int;
                (!old(stream).done && i < old(self).registry@.len() && old(stream).wt() && (old(
                    self,
                ).registry@[i].1.batches@.len() > 0 ==> (old(self).registry@[i].1.batches@[0].wt()
                    && old(self).registry@[i].1.batches@[0]@.schema == old(
                    stream,
                ).source_schema@))) ==> r is Ok
            }),
    {
        if stream.done {
            return Ok(None);
        }
        let i = stream.source_index;
        if i >= self.registry.len() {
            return Err(ExecutionError::InternalError("stream source is gone".to_owned()));
        }
        let (name, mut source) = self.registry.remove(i);
        let ghost pre = source;
        let pulled = source.next();
        self.registry.insert(i, (name, source));
        proof {
            assert(self.registry@[i as int].1 == source);
            assert(self.registry@[i as int].0 == old(self).registry@[i as int].0);
        }
        let b = match pulled {
            Ok(Some(b)) => b,
            Ok(None) => {
                proof {
                    assert(self.registry@ =~= old(self).registry@);
                }
                stream.done = true;
                return Ok(None);
            },
            Err(e) => {
                return Err(e);
            },
        };
        proof {
            assert(self.registry@[i as int].1.remaining() =~= pre.remaining().drop_first());
        }
        let out = match apply_stream(stream, b) {
            Ok(x) => x,
            Err(e) => {
                return Err(e);
            },
        };
        proof {
            assert(*stream == *old(stream));
            assert(b@ == pre.remaining()[0]);
        }
        Ok(Some(out))
    }
}

/// Determinism: one stream maps one source batch to exactly one output
/// batch, so issuing the same query against the same source state yields
/// identical batch sequences, pull for pull.
pub proof fn lemma_query_deterministic(
    stream: ResultStream,
    b: BatchModel,
    o1: BatchModel,
    o2: BatchModel,
)
    requires
        stream_transforms(stream, b, o1),
        stream_transforms(stream, b, o2),
    ensures
        o1 =~~= o2,
{
    match stream.selection {
        Some(pred) => {
            let mid1 = choose|mid: BatchModel|
                #[trigger] selected(pred, b, mid) && projected(
                    stream.proj_exprs@,
                    stream.schema@,
                    mid,
                    o1,
                );
            let mid2 = choose|mid: BatchModel|
                #[trigger] selected(pred, b, mid) && projected(
                    stream.proj_exprs@,
                    stream.schema@,
                    mid,
                    o2,
                );
            assert(mid1 =~~= mid2);
            assert(o1 =~~= o2) by {
                assert forall|j: int| 0 <= j < o1.columns.len() implies o1.columns[j] =~= o2.columns[j] by {
                    assert forall|i: int| 0 <= i < o1.columns[j].len() implies o1.columns[j][i]
                        == o2.columns[j][i] by {
                        assert(eval_row(stream.proj_exprs@[j], row_of_model(mid1, i)) == Some(
                            o1.columns[j][i],
                        ));
                        assert(eval_row(stream.proj_exprs@[j], row_of_model(mid2, i)) == Some(
                            o2.columns[j][i],
                        ));
                    }
                }
            }
        },
        None => {
            assert(o1 =~~= o2) by {
                assert forall|j: int| 0 <= j < o1.columns.len() implies o1.columns[j] =~= o2.columns[j] by {
                    assert forall|i: int| 0 <= i < o1.columns[j].len() implies o1.columns[j][i]
                        == o2.columns[j][i] by {
                        assert(eval_row(stream.proj_exprs@[j], row_of_model(b, i)) == Some(
                            o1.columns[j][i],
                        ));
                        assert(eval_row(stream.proj_exprs@[j], row_of_model(b, i)) == Some(
                            o2.columns[j][i],
                        ));
                    }
                }
            }
        },
    }
}

} // verus!
