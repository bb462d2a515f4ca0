//! Data sources: lazy, cursor-based producers of batches bound to one schema.

use vstd::prelude::*;
use crate::execution::batch::{Batch, BatchModel};
use crate::execution::error::ExecutionError;
use crate::execution::schema::Schema;

verus! {

/// A polymorphic producer of batches: any storage kind implements the same
/// two operations. A source is bound to one schema for its whole lifetime and
/// yields its batches in order, never rewinding; once it reports exhaustion
/// it must stay exhausted. The trait itself promises nothing Verus relies on,
/// so storage kinds outside the verified library can implement it; the
/// in-memory source's own implementation carries proved contracts, and the
/// operator runtime re-checks every produced batch against the declared
/// schema at runtime.
pub trait DataSource: Sized {
    /// The source's fixed schema.
    fn schema(&self) -> &Schema;

    /// Yields the next batch, or `None` once every batch has been yielded.
    fn next(&mut self) -> Result<Option<Batch>, ExecutionError>;
}

/// The total number of rows across a sequence of batches.
pub open spec fn total_rows(bs: Seq<BatchModel>) -> nat
    decreases bs.len(),
{
    if bs.len() == 0 {
        0
    } else {
        bs[0].num_rows + total_rows(bs.drop_first())
    }
}

/// Row conservation: a successful pull hands over exactly the rows that leave
/// the source's unread content, so the rows yielded across a source's life
/// sum to its total row count, and a source that reports exhaustion has
/// yielded everything.
pub proof fn lemma_pull_conserves_rows(pre: Seq<BatchModel>, post: Seq<BatchModel>, b: BatchModel)
    requires
        pre.len() > 0,
        b == pre[0],
        post == pre.drop_first(),
    ensures
        total_rows(pre) == b.num_rows + total_rows(post),
{
}

/// An in-memory data source: a fixed schema and a queue of batches already in
/// columnar form.
pub struct MemDataSource {
    /// The schema every batch conforms to.
    pub schema: Schema,
    /// The batches not yet yielded, in order.
    pub batches: Vec<Batch>,
}

impl MemDataSource {
    /// The batches this source has yet to yield, in order.
    pub open spec fn remaining(&self) -> Seq<BatchModel> {
        self.batches@.map_values(|b: Batch| b@)
    }

    /// Builds an in-memory source after checking that every batch is well
    /// formed and carries exactly the declared schema.
    pub fn new(schema: Schema, batches: Vec<Batch>) -> (r: Result<MemDataSource, ExecutionError>)
        ensures
            match r {
                Ok(s) => {
                    &&& s.schema@ == schema@
                    &&& s.batches@ == batches@
                    &&& forall|i: int|
                        0 <= i < batches@.len() ==> (#[trigger] batches@[i]).wt()
                            && batches@[i]@.schema == schema@
                },
                Err(e) => e matches ExecutionError::InternalError(_),
            },
            (r matches Ok(_)) <==> (forall|i: int|
                0 <= i < batches@.len() ==> (#[trigger] batches@[i]).wt() && batches@[i]@.schema
                    == schema@),
    {
        let n = batches.len();
        let mut i: usize = 0;
        while i < n
            invariant
                n == batches@.len(),
                i <= n,
                forall|k: int|
                    0 <= k < i ==> (#[trigger] batches@[k]).wt() && batches@[k]@.schema == schema@,
            decreases n - i,
        {
            let ok = batches[i].check_wf() && batches[i].schema.matches(&schema);
            if !ok {
                return Err(
                    ExecutionError::InternalError(
                        "batch does not conform to the declared schema".to_owned(),
                    ),
                );
            }
            i = i + 1;
        }
        Ok(MemDataSource { schema, batches })
    }
}

impl DataSource for MemDataSource {
    /// The fixed schema: the same on every call, for the source's lifetime.
    fn schema(&self) -> (r: &Schema)
        ensures
            r@ == self.schema@,
    {
        &self.schema
    }

    /// Yields the next unread batch, or `None` once — and only once — every
    /// batch has been yielded. Exhaustion is terminal: the unread content is
    /// empty exactly when `None` is reported, and it stays empty. The schema
    /// never changes.
    fn next(&mut self) -> (r: Result<Option<Batch>, ExecutionError>)
        ensures
            final(self).schema == old(self).schema,
            match r {
                Ok(Some(b)) => old(self).remaining().len() > 0 && b == old(self).batches@[0] && b@
                    == old(self).remaining()[0] && final(self).batches@ == old(
                    self,
                ).batches@.drop_first() && final(self).remaining() == old(
                    self,
                ).remaining().drop_first(),
                Ok(None) => old(self).remaining().len() == 0 && *final(self) == *old(self),
                Err(_) => false,
            },
    {
        if self.batches.len() > 0 {
            let b = self.batches.remove(0);
            proof {
                assert(self.batches@ =~= old(self).batches@.drop_first());
                assert(self.remaining() =~= old(self).remaining().drop_first());
            }
            Ok(Some(b))
        } else {
            Ok(None)
        }
    }
}

/// A plan-level description of a source that lives outside the process: the
/// file kinds the engine can be pointed at.
#[derive(Clone, Debug)]
pub enum DataSourceMeta {
    /// A delimited-text file with a caller-provided schema.
    CsvFile { filename: String, schema: std::rc::Rc<Schema>, has_header: bool, projection: Option<Vec<usize>> },
    /// A self-describing columnar file.
    ParquetFile { filename: String, schema: std::rc::Rc<Schema>, projection: Option<Vec<usize>> },
}

} // verus!
