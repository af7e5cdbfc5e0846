//! Task outcomes and their collection. Every query task ends in exactly
//! one of two ways: it completes with one result record, or it fails and
//! contributes no record. The collector writes the records to the
//! pipeline's output stream in completion order and aggregates the
//! identities of the failed tasks for the report at the join.

use vstd::prelude::*;

use crate::record::{line_free, record_text, ResultRecord};
use crate::stream::OutputStream;
use vstd::seq_lib::lemma_multiset_commutative;

verus! {

/// How one query task ended: with a result record, or with a failure
/// identified by the task's result column alias. Exactly one of the two
/// holds for every task — never both, never neither.
pub enum TaskOutcome {
    Completed(ResultRecord),
    Failed(String),
}

/// The lines one outcome contributes to the output stream: one serialized
/// record for a completed task, nothing for a failed one.
pub open spec fn outcome_lines(t: TaskOutcome) -> Seq<Seq<char>> {
    match t {
        TaskOutcome::Completed(r) => seq![record_text(r.alias@, r.value as int)],
        TaskOutcome::Failed(_) => Seq::empty(),
    }
}

/// The failure identities one outcome contributes: nothing for a completed
/// task, one alias for a failed one.
pub open spec fn outcome_failure(t: TaskOutcome) -> Seq<Seq<char>> {
    match t {
        TaskOutcome::Completed(_) => Seq::empty(),
        TaskOutcome::Failed(alias) => seq![alias@],
    }
}

/// The lines that a sequence of outcomes, taken in completion order,
/// writes to the stream.
pub open spec fn record_lines(o: Seq<TaskOutcome>) -> Seq<Seq<char>>
    decreases o.len(),
{
    if o.len() == 0 {
        Seq::empty()
    } else {
        record_lines(o.drop_last()) + outcome_lines(o.last())
    }
}

/// The identities of the failed tasks among a sequence of outcomes, in
/// completion order.
pub open spec fn failed_names(o: Seq<TaskOutcome>) -> Seq<Seq<char>>
    decreases o.len(),
{
    if o.len() == 0 {
        Seq::empty()
    } else {
        failed_names(o.drop_last()) + outcome_failure(o.last())
    }
}

/// The aliases of all completed outcomes are free of line boundaries, so
/// each record can stand whole on one line.
pub open spec fn aliases_line_free(o: Seq<TaskOutcome>) -> bool {
    forall|k: int|
        0 <= k < o.len() ==> match #[trigger] o[k] {
            TaskOutcome::Completed(r) => line_free(r.alias@),
            TaskOutcome::Failed(_) => true,
        }
}

/// Every task is accounted for exactly once: each outcome contributes
/// either one record line or one failure identity, so with K tasks and F
/// failures the stream holds exactly K - F records.
pub proof fn lemma_outcome_accounting(o: Seq<TaskOutcome>)
    ensures
        record_lines(o).len() + failed_names(o).len() == o.len(),
    decreases o.len(),
{
    if o.len() > 0 {
        lemma_outcome_accounting(o.drop_last());
    }
}

/// Collection distributes over concatenation of outcome sequences.
pub proof fn lemma_collection_distributes(a: Seq<TaskOutcome>, b: Seq<TaskOutcome>)
    ensures
        record_lines(a + b) == record_lines(a) + record_lines(b),
        failed_names(a + b) == failed_names(a) + failed_names(b),
    decreases b.len(),
{
    if b.len() == 0 {
        assert(a + b =~= a);
        assert(record_lines(a + b) =~= record_lines(a) + record_lines(b));
        assert(failed_names(a + b) =~= failed_names(a) + failed_names(b));
    } else {
        lemma_collection_distributes(a, b.drop_last());
        assert((a + b).drop_last() =~= a + b.drop_last());
        assert((a + b).last() == b.last());
        assert(record_lines(a + b) =~= record_lines(a) + record_lines(b));
        assert(failed_names(a + b) =~= failed_names(a) + failed_names(b));
    }
}

/// Completion order is immaterial to what is collected: two runs whose
/// outcomes are a rearrangement of one another write the same multiset of
/// record lines and report the same multiset of failure identities. The
/// order of the lines may differ; their contents cannot.
pub proof fn lemma_completion_order_immaterial(o1: Seq<TaskOutcome>, o2: Seq<TaskOutcome>)
    requires
        o1.to_multiset() == o2.to_multiset(),
    ensures
        record_lines(o1).to_multiset() == record_lines(o2).to_multiset(),
        failed_names(o1).to_multiset() == failed_names(o2).to_multiset(),
    decreases o1.len(),
{
    broadcast use vstd::seq_lib::group_to_multiset_ensures;

    if o1.len() == 0 {
        assert(o2.to_multiset().len() == 0);
        assert(o2.len() == 0);
        assert(record_lines(o1).to_multiset() =~= record_lines(o2).to_multiset());
        assert(failed_names(o1).to_multiset() =~= failed_names(o2).to_multiset());
    } else {
        let e = o1.last();
        let rest1 = o1.drop_last();
        assert(o1 == rest1.push(e));
        assert(o1.to_multiset() == rest1.to_multiset().insert(e));
        assert(o1.to_multiset().count(e) > 0);
        assert(o2.contains(e));
        let j = choose|j: int| 0 <= j < o2.len() && o2[j] == e;
        let rest2 = o2.remove(j);
        assert(rest2.to_multiset() == o2.to_multiset().remove(e));
        assert(rest1.to_multiset() == o1.to_multiset().remove(e)) by {
            assert(rest1 =~= o1.remove(o1.len() - 1));
        }
        lemma_completion_order_immaterial(rest1, rest2);
        // Decompose o2 around position j and distribute the collection.
        let pre = o2.subrange(0, j);
        let post = o2.subrange(j + 1, o2.len() as int);
        assert(o2 =~= pre + (seq![e] + post));
        assert(rest2 =~= pre + post);
        lemma_collection_distributes(pre, seq![e] + post);
        lemma_collection_distributes(seq![e], post);
        lemma_collection_distributes(pre, post);
        lemma_collection_distributes(rest1, seq![e]);
        assert(o1 =~= rest1 + seq![e]);
        assert(record_lines(seq![e]) == outcome_lines(e) && failed_names(seq![e])
            == outcome_failure(e)) by {
            assert(seq![e].len() == 1);
            assert(seq![e].last() == e);
            assert(seq![e].drop_last() =~= Seq::<TaskOutcome>::empty());
            assert(record_lines(Seq::<TaskOutcome>::empty()) == Seq::<Seq<char>>::empty());
            assert(failed_names(Seq::<TaskOutcome>::empty()) == Seq::<Seq<char>>::empty());
            assert(Seq::<Seq<char>>::empty() + outcome_lines(e) =~= outcome_lines(e));
            assert(Seq::<Seq<char>>::empty() + outcome_failure(e) =~= outcome_failure(e));
        }
        lemma_multiset_commutative(record_lines(pre), outcome_lines(e) + record_lines(post));
        lemma_multiset_commutative(outcome_lines(e), record_lines(post));
        lemma_multiset_commutative(record_lines(pre), record_lines(post));
        lemma_multiset_commutative(record_lines(rest1), outcome_lines(e));
        assert(record_lines(o1).to_multiset() =~= record_lines(o2).to_multiset());
        lemma_multiset_commutative(failed_names(pre), outcome_failure(e) + failed_names(post));
        lemma_multiset_commutative(outcome_failure(e), failed_names(post));
        lemma_multiset_commutative(failed_names(pre), failed_names(post));
        lemma_multiset_commutative(failed_names(rest1), outcome_failure(e));
        assert(failed_names(o1).to_multiset() =~= failed_names(o2).to_multiset());
    }
}

/// Collects the outcomes of all tasks of one pipeline, in completion
/// order: each completed task's record is appended to the stream as one
/// line, each failed task's identity is aggregated for the report, and
/// every task is accounted for exactly once.
pub fn collect_outcomes(outcomes: Vec<TaskOutcome>, stream: &mut OutputStream) -> (failed: Vec<
    String,
>)
    requires
        old(stream).well_formed(),
        !old(stream).finished,
        aliases_line_free(outcomes@),
    ensures
        final(stream).well_formed(),
        !final(stream).finished,
        final(stream).lines@ == old(stream).lines@ + record_lines(outcomes@),
        failed@.map_values(|a: String| a@) == failed_names(outcomes@),
{
    let ghost orig: Seq<TaskOutcome> = outcomes@;
    let ghost processed: Seq<TaskOutcome> = Seq::empty();
    let mut remaining = outcomes;
    let mut failed: Vec<String> = Vec::new();
    proof {
        assert(processed + remaining@ =~= orig);
        assert(stream.lines@ =~= old(stream).lines@ + record_lines(processed));
        assert(failed@.map_values(|a: String| a@) =~= failed_names(processed));
    }
    while remaining.len() > 0
        invariant
            stream.well_formed(),
            !stream.finished,
            processed + remaining@ == orig,
            aliases_line_free(remaining@),
            stream.lines@ == old(stream).lines@ + record_lines(processed),
            failed@.map_values(|a: String| a@) == failed_names(processed),
        decreases remaining.len(),
    {
        let ghost before: Seq<TaskOutcome> = remaining@;
        let t = remaining.remove(0);
        let ghost tg: TaskOutcome = t;
        proof {
            assert(before[0] == t);
            assert(remaining@ =~= before.drop_first());
            assert forall|k: int| 0 <= k < remaining@.len() implies match #[trigger] remaining@[k] {
                TaskOutcome::Completed(r) => line_free(r.alias@),
                TaskOutcome::Failed(_) => true,
            } by {
                assert(remaining@[k] == before[k + 1]);
            }
            assert(processed.push(tg).drop_last() =~= processed);
            assert(record_lines(processed.push(tg)) =~= record_lines(processed) + outcome_lines(
                tg,
            ));
            assert(failed_names(processed.push(tg)) =~= failed_names(processed) + outcome_failure(
                tg,
            ));
            assert(processed.push(tg) + remaining@ =~= orig);
        }
        match t {
            TaskOutcome::Completed(r) => {
                proof {
                    assert(tg == TaskOutcome::Completed(r));
                }
                stream.write_record(&r);
                proof {
                    assert(stream.lines@ =~= old(stream).lines@ + record_lines(
                        processed.push(tg),
                    ));
                }
            },
            TaskOutcome::Failed(alias) => {
                let ghost aliasg: String = alias;
                proof {
                    assert(tg == TaskOutcome::Failed(aliasg));
                }
                failed.push(alias);
                proof {
                    assert(failed@.map_values(|a: String| a@) =~= failed_names(
                        processed.push(tg),
                    ));
                }
            },
        }
        proof {
            processed = processed.push(tg);
        }
    }
    proof {
        assert(remaining@.len() == 0);
        assert(processed =~= orig);
    }
    failed
}

} // verus!
