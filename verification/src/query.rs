//! Partition-to-task mapping: building the aggregate query text for each
//! column of the two column families, and fanning a table out into one
//! query task per (family, index) pair.

use vstd::prelude::*;

use crate::text::{dec_digits, u64_to_string};

verus! {

/// The two disjoint families of aggregate-query templates: one scalar
/// `sum` per `amount<i>` column, and one per `number<j>` column.
#[derive(Clone, Copy, PartialEq, Eq, Structural, Debug)]
pub enum Family {
    Amount,
    Number,
}

/// The column-name prefix of a family.
pub open spec fn family_prefix(f: Family) -> Seq<char> {
    match f {
        Family::Amount => "amount"@,
        Family::Number => "number"@,
    }
}

/// The result column alias for task index `i`: `calc<i>`.
pub open spec fn alias_text(i: nat) -> Seq<char> {
    "calc"@ + dec_digits(i)
}

/// The query text for one aggregate task:
/// `SELECT sum(<table>.<prefix><i>) as calc<i> FROM <table>`.
pub open spec fn query_text(table: Seq<char>, f: Family, i: nat) -> Seq<char> {
    "SELECT sum("@ + table + "."@ + family_prefix(f) + dec_digits(i) + ") as calc"@ + dec_digits(
        i,
    ) + " FROM "@ + table
}

/// One unit of work: an aggregate query string, the table it runs
/// against, and the alias under which its scalar result is reported.
/// Immutable once constructed; consumed by exactly one execution.
pub struct QueryTask {
    pub family: Family,
    pub index: u64,
    pub table: String,
    pub query: String,
    pub alias: String,
}

impl QueryTask {
    /// The task's text fields are exactly the ones its family and index
    /// prescribe for the given table.
    pub open spec fn well_formed(self, table: Seq<char>) -> bool {
        &&& self.table@ == table
        &&& self.query@ == query_text(table, self.family, self.index as nat)
        &&& self.alias@ == alias_text(self.index as nat)
    }
}

/// Builds the alias string `calc<i>`.
pub fn build_alias(index: u64) -> (r: String)
    ensures
        r@ == alias_text(index as nat),
{
    let mut s = String::from_str("calc");
    let digits = u64_to_string(index);
    s.append(digits.as_str());
    proof {
        assert(s@ =~= alias_text(index as nat));
    }
    s
}

/// Builds the aggregate query text for one (family, index) pair.
pub fn build_query(table: &str, family: Family, index: u64) -> (r: String)
    ensures
        r@ == query_text(table@, family, index as nat),
{
    let digits = u64_to_string(index);
    let mut s = String::from_str("SELECT sum(");
    s.append(table);
    s.append(".");
    match family {
        Family::Amount => s.append("amount"),
        Family::Number => s.append("number"),
    }
    s.append(digits.as_str());
    s.append(") as calc");
    s.append(digits.as_str());
    s.append(" FROM ");
    s.append(table);
    proof {
        assert(s@ =~= query_text(table@, family, index as nat));
    }
    s
}

/// Constructs the immutable query task for one (family, index) pair.
pub fn make_task(table: &str, family: Family, index: u64) -> (t: QueryTask)
    ensures
        t.family == family,
        t.index == index,
        t.well_formed(table@),
{
    QueryTask {
        family,
        index,
        table: String::from_str(table),
        query: build_query(table, family, index),
        alias: build_alias(index),
    }
}

/// Fans a table out into its full set of query tasks: one `sum(amount<i>)`
/// task for each `i` in `1..=amount_count`, followed by one
/// `sum(number<j>)` task for each `j` in `1..=number_count`.
///
/// The position of a task in the returned vector is its submission order;
/// no completion order is implied.
pub fn fan_out(table: &str, amount_count: u64, number_count: u64) -> (tasks: Vec<QueryTask>)
    ensures
        tasks@.len() == amount_count + number_count,
        forall|k: int|
            0 <= k < amount_count ==> {
                &&& (#[trigger] tasks@[k]).family == Family::Amount
                &&& tasks@[k].index == k + 1
                &&& tasks@[k].well_formed(table@)
            },
        forall|k: int|
            amount_count <= k < tasks@.len() ==> {
                &&& (#[trigger] tasks@[k]).family == Family::Number
                &&& tasks@[k].index == k - amount_count + 1
                &&& tasks@[k].well_formed(table@)
            },
{
    let mut tasks: Vec<QueryTask> = Vec::new();
    let mut i: u64 = 0;
    while i < amount_count
        invariant
            0 <= i <= amount_count,
            tasks@.len() == i,
            forall|k: int|
                0 <= k < i ==> {
                    &&& (#[trigger] tasks@[k]).family == Family::Amount
                    &&& tasks@[k].index == k + 1
                    &&& tasks@[k].well_formed(table@)
                },
        decreases amount_count - i,
    {
        tasks.push(make_task(table, Family::Amount, i + 1));
        i = i + 1;
    }
    let mut j: u64 = 0;
    while j < number_count
        invariant
            0 <= j <= number_count,
            tasks@.len() == amount_count + j,
            forall|k: int|
                0 <= k < amount_count ==> {
                    &&& (#[trigger] tasks@[k]).family == Family::Amount
                    &&& tasks@[k].index == k + 1
                    &&& tasks@[k].well_formed(table@)
                },
            forall|k: int|
                amount_count <= k < tasks@.len() ==> {
                    &&& (#[trigger] tasks@[k]).family == Family::Number
                    &&& tasks@[k].index == k - amount_count + 1
                    &&& tasks@[k].well_formed(table@)
                },
        decreases number_count - j,
    {
        tasks.push(make_task(table, Family::Number, j + 1));
        j = j + 1;
    }
    tasks
}

} // verus!
