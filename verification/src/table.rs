//! The partition loader's accounting: an in-memory table is built from the
//! row batches read out of one partition, its schema taken from the first
//! batch observed, and it holds every row of every batch.

use vstd::prelude::*;

use crate::pipeline::PipelineError;

verus! {

/// One batch of rows read from a partition's files, reduced to what the
/// orchestration reads of it: the number of rows it holds and an
/// identifier of its schema. The cell values themselves stay with the
/// query-engine collaborator.
pub struct Batch {
    pub schema_id: u64,
    pub rows: u64,
}

/// The total number of rows across a sequence of batches.
pub open spec fn sum_rows(batches: Seq<Batch>) -> int
    decreases batches.len(),
{
    if batches.len() == 0 {
        0
    } else {
        sum_rows(batches.drop_last()) + batches.last().rows
    }
}

/// The row total of a prefix never exceeds the row total of the whole.
pub proof fn lemma_sum_rows_prefix(batches: Seq<Batch>, i: int)
    requires
        0 <= i <= batches.len(),
    ensures
        0 <= sum_rows(batches.take(i)) <= sum_rows(batches),
    decreases batches.len() - i,
{
    if i == batches.len() {
        assert(batches.take(i) =~= batches);
        lemma_sum_rows_nonneg(batches);
    } else {
        lemma_sum_rows_prefix(batches, i + 1);
        lemma_sum_rows_nonneg(batches.take(i));
        assert(batches.take(i + 1).drop_last() =~= batches.take(i));
        assert(batches.take(i + 1).last() == batches[i]);
    }
}

/// A row total is never negative.
pub proof fn lemma_sum_rows_nonneg(batches: Seq<Batch>)
    ensures
        sum_rows(batches) >= 0,
    decreases batches.len(),
{
    if batches.len() > 0 {
        lemma_sum_rows_nonneg(batches.drop_last());
    }
}

/// An in-memory columnar table: a fixed schema and the row batches loaded
/// from one partition. Owned by the pipeline that created it and shared
/// read-only across that pipeline's query tasks.
pub struct Table {
    pub schema_id: u64,
    pub batches: Vec<Batch>,
}

impl Table {
    /// Every batch of the table carries the table's own schema.
    pub open spec fn well_formed(self) -> bool {
        forall|k: int|
            0 <= k < self.batches@.len() ==> (#[trigger] self.batches@[k]).schema_id
                == self.schema_id
    }

    /// The table's total number of rows.
    pub open spec fn spec_row_count(self) -> int {
        sum_rows(self.batches@)
    }

    /// Counts the rows of the table: exactly the sum of the rows across
    /// its batches.
    pub fn row_count(&self) -> (n: u64)
        requires
            self.spec_row_count() <= u64::MAX,
        ensures
            n == self.spec_row_count(),
    {
        let mut total: u64 = 0;
        let mut i: usize = 0;
        while i < self.batches.len()
            invariant
                0 <= i <= self.batches@.len(),
                total == sum_rows(self.batches@.take(i as int)),
                self.spec_row_count() <= u64::MAX,
            decreases self.batches@.len() - i,
        {
            proof {
                lemma_sum_rows_prefix(self.batches@, i as int + 1);
                assert(self.batches@.take(i as int + 1).drop_last() =~= self.batches@.take(i as int));
                assert(self.batches@.take(i as int + 1).last() == self.batches@[i as int]);
            }
            total = total + self.batches[i].rows;
            i = i + 1;
        }
        proof {
            assert(self.batches@.take(self.batches@.len() as int) =~= self.batches@);
        }
        total
    }
}

/// Decides whether any row at all was read out of the partition.
pub fn has_rows(batches: &Vec<Batch>) -> (b: bool)
    ensures
        b <==> sum_rows(batches@) > 0,
{
    let mut any_rows = false;
    let mut i: usize = 0;
    while i < batches.len()
        invariant
            0 <= i <= batches@.len(),
            any_rows <==> sum_rows(batches@.take(i as int)) > 0,
        decreases batches@.len() - i,
    {
        proof {
            lemma_sum_rows_nonneg(batches@.take(i as int));
            assert(batches@.take(i as int + 1).drop_last() =~= batches@.take(i as int));
            assert(batches@.take(i as int + 1).last() == batches@[i as int]);
        }
        if batches[i].rows > 0 {
            any_rows = true;
        }
        i = i + 1;
    }
    proof {
        assert(batches@.take(batches@.len() as int) =~= batches@);
    }
    any_rows
}

/// Builds the in-memory table from the batches read out of one partition.
/// The schema is taken from the first batch observed. Fails with
/// `SchemaError` if and only if no rows could be loaded; succeeds on every
/// other input, keeping every row of every batch.
pub fn load_table(batches: Vec<Batch>) -> (r: Result<Table, PipelineError>)
    requires
        forall|k: int|
            0 <= k < batches@.len() ==> (#[trigger] batches@[k]).schema_id
                == batches@[0].schema_id,
    ensures
        sum_rows(batches@) == 0 ==> r == Result::<Table, PipelineError>::Err(
            PipelineError::SchemaError,
        ),
        sum_rows(batches@) > 0 ==> match r {
            Result::Ok(t) => {
                &&& t.well_formed()
                &&& t.batches@ == batches@
                &&& t.schema_id == batches@[0].schema_id
                &&& t.spec_row_count() == sum_rows(batches@)
            },
            Result::Err(_) => false,
        },
{
    proof {
        lemma_sum_rows_nonneg(batches@);
    }
    if !has_rows(&batches) {
        return Result::Err(PipelineError::SchemaError);
    }
    assert(batches@.len() > 0);
    let schema_id = batches[0].schema_id;
    Result::Ok(Table { schema_id, batches })
}

} // verus!
