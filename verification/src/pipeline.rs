//! One partition's pipeline, from loading to the join: its error taxonomy,
//! its state machine, and the driver that turns what the collaborators
//! reported into the pipeline's stream, failure aggregate, and final stage.
//! The run coordinator maps each partition's observations to a report,
//! each pipeline fully independent of its siblings.

use vstd::prelude::*;

use crate::outcome::{aliases_line_free, collect_outcomes, failed_names, record_lines,
    lemma_outcome_accounting, TaskOutcome};
use crate::stream::OutputStream;
use crate::table::{has_rows, sum_rows, Batch};

verus! {

/// What can go wrong in a pipeline. An `IOError` or `SchemaError` during
/// loading or registration aborts the pipeline; a `QueryError` belongs to
/// a single task and never does.
#[derive(Clone, Copy, PartialEq, Eq, Structural, Debug)]
pub enum PipelineError {
    IOError,
    SchemaError,
    QueryError,
}

/// The stages a pipeline passes through. `Finished` and `Failed` are both
/// terminal.
#[derive(Clone, Copy, PartialEq, Eq, Structural, Debug)]
pub enum Stage {
    Loading,
    Registering,
    FanningOut,
    Collecting,
    Finished,
    Failed,
}

/// The events that move a pipeline from one stage to the next.
#[derive(Clone, Copy, PartialEq, Eq, Structural, Debug)]
pub enum Event {
    LoadSucceeded,
    LoadFailed,
    RegisterSucceeded,
    RegisterFailed,
    TasksSubmitted,
    TasksJoined,
}

/// A stage from which no event moves the pipeline further.
pub open spec fn is_terminal(s: Stage) -> bool {
    s == Stage::Finished || s == Stage::Failed
}

/// Whether an event can occur at a stage.
pub open spec fn event_applies(s: Stage, e: Event) -> bool {
    match (s, e) {
        (Stage::Loading, Event::LoadSucceeded) => true,
        (Stage::Loading, Event::LoadFailed) => true,
        (Stage::Registering, Event::RegisterSucceeded) => true,
        (Stage::Registering, Event::RegisterFailed) => true,
        (Stage::FanningOut, Event::TasksSubmitted) => true,
        (Stage::Collecting, Event::TasksJoined) => true,
        _ => false,
    }
}

/// The stage an applicable event leads to.
pub open spec fn next_stage(s: Stage, e: Event) -> Stage {
    match (s, e) {
        (Stage::Loading, Event::LoadSucceeded) => Stage::Registering,
        (Stage::Loading, Event::LoadFailed) => Stage::Failed,
        (Stage::Registering, Event::RegisterSucceeded) => Stage::FanningOut,
        (Stage::Registering, Event::RegisterFailed) => Stage::Failed,
        (Stage::FanningOut, Event::TasksSubmitted) => Stage::Collecting,
        (Stage::Collecting, Event::TasksJoined) => Stage::Finished,
        _ => s,
    }
}

/// Advances the pipeline's stage by one event.
pub fn step(s: Stage, e: Event) -> (r: Stage)
    requires
        event_applies(s, e),
    ensures
        r == next_stage(s, e),
{
    match (s, e) {
        (Stage::Loading, Event::LoadSucceeded) => Stage::Registering,
        (Stage::Loading, Event::LoadFailed) => Stage::Failed,
        (Stage::Registering, Event::RegisterSucceeded) => Stage::FanningOut,
        (Stage::Registering, Event::RegisterFailed) => Stage::Failed,
        (Stage::FanningOut, Event::TasksSubmitted) => Stage::Collecting,
        (Stage::Collecting, Event::TasksJoined) => Stage::Finished,
        _ => s,
    }
}

/// `Finished` and `Failed` are terminal: no event applies to either.
pub proof fn lemma_terminal_stages_absorb(s: Stage, e: Event)
    requires
        is_terminal(s),
    ensures
        !event_applies(s, e),
{
}

/// `Failed` is reached only when loading or registration fails outright;
/// in particular, the join of the query tasks never fails the pipeline,
/// however many individual tasks failed.
pub proof fn lemma_failed_only_from_load_or_register(s: Stage, e: Event)
    requires
        event_applies(s, e),
        next_stage(s, e) == Stage::Failed,
    ensures
        (s == Stage::Loading && e == Event::LoadFailed) || (s == Stage::Registering && e
            == Event::RegisterFailed),
{
}

/// The nominal walk: load, register, fan out, and join, in that order,
/// take the pipeline from `Loading` to `Finished`.
pub proof fn lemma_nominal_path()
    ensures
        next_stage(Stage::Loading, Event::LoadSucceeded) == Stage::Registering,
        next_stage(Stage::Registering, Event::RegisterSucceeded) == Stage::FanningOut,
        next_stage(Stage::FanningOut, Event::TasksSubmitted) == Stage::Collecting,
        next_stage(Stage::Collecting, Event::TasksJoined) == Stage::Finished,
{
}

/// What the partition reader observed: the location was unreadable, or it
/// yielded these row batches.
pub enum LoadOutcome {
    Unreadable,
    Read(Vec<Batch>),
}

/// What the engine answered when the table was registered: accepted, or
/// rejected with the error that aborts the pipeline.
pub enum RegisterOutcome {
    Accepted,
    Rejected(PipelineError),
}

/// The error that fails a pipeline outright, if any: an unreadable
/// partition, a partition with no rows, or a rejected registration.
/// Individual task failures never appear here.
pub open spec fn pipeline_failure(load: LoadOutcome, register: RegisterOutcome) -> Option<
    PipelineError,
> {
    match load {
        LoadOutcome::Unreadable => Some(PipelineError::IOError),
        LoadOutcome::Read(batches) => if sum_rows(batches@) == 0 {
            Some(PipelineError::SchemaError)
        } else {
            match register {
                RegisterOutcome::Accepted => None,
                RegisterOutcome::Rejected(e) => Some(e),
            }
        },
    }
}

/// The report a pipeline hands back at its join.
pub struct PipelineReport {
    /// The terminal stage: `Finished`, or `Failed` for an aborted load or
    /// registration.
    pub stage: Stage,
    /// The aborting error, if the pipeline failed outright.
    pub error: Option<PipelineError>,
    /// The finished output stream; none is ever created for a failed
    /// pipeline.
    pub stream: Option<OutputStream>,
    /// The identities (result column aliases) of the failed tasks.
    pub failed: Vec<String>,
    /// Whether the pipeline finished but one or more of its tasks failed.
    pub partial_failure: bool,
}

/// Drives one partition's pipeline from what its collaborators reported:
/// the read of the partition, the registration answer, and the outcome of
/// every query task in completion order.
///
/// A failed load or registration aborts the pipeline before any stream is
/// created; sibling tasks' outcomes are then never written. Otherwise the
/// stream holds exactly one line per completed task, in completion order,
/// the failed tasks are aggregated for the report, and with K tasks and F
/// failures the finished stream holds exactly K - F records.
pub fn run_pipeline(load: LoadOutcome, register: RegisterOutcome, outcomes: Vec<TaskOutcome>) -> (r:
    PipelineReport)
    requires
        aliases_line_free(outcomes@),
    ensures
        r.error == pipeline_failure(load, register),
        r.stage == if pipeline_failure(load, register) is Some {
            Stage::Failed
        } else {
            Stage::Finished
        },
        pipeline_failure(load, register) is Some ==> {
            &&& r.stream is None
            &&& r.failed@.len() == 0
            &&& !r.partial_failure
        },
        pipeline_failure(load, register) is None ==> match r.stream {
            Some(s) => {
                &&& s.well_formed()
                &&& s.finished
                &&& s.lines@ == record_lines(outcomes@)
                &&& r.failed@.map_values(|a: String| a@) == failed_names(outcomes@)
                &&& (r.partial_failure <==> failed_names(outcomes@).len() > 0)
                &&& s.lines@.len() + r.failed@.len() == outcomes@.len()
            },
            None => false,
        },
{
    let failure: Option<PipelineError> = match &load {
        LoadOutcome::Unreadable => Some(PipelineError::IOError),
        LoadOutcome::Read(batches) => {
            proof {
                crate::table::lemma_sum_rows_nonneg(batches@);
            }
            if !has_rows(batches) {
                Some(PipelineError::SchemaError)
            } else {
                match register {
                    RegisterOutcome::Accepted => None,
                    RegisterOutcome::Rejected(e) => Some(e),
                }
            }
        },
    };
    match failure {
        Some(e) => PipelineReport {
            stage: Stage::Failed,
            error: Some(e),
            stream: None,
            failed: Vec::new(),
            partial_failure: false,
        },
        None => {
            let mut stream = OutputStream::new();
            let failed = collect_outcomes(outcomes, &mut stream);
            stream.finish();
            let partial_failure = failed.len() > 0;
            proof {
                lemma_outcome_accounting(outcomes@);
                assert(Seq::<Seq<char>>::empty() + record_lines(outcomes@) =~= record_lines(
                    outcomes@,
                ));
                assert(failed@.map_values(|a: String| a@).len() == failed@.len());
            }
            PipelineReport {
                stage: Stage::Finished,
                error: None,
                stream: Some(stream),
                failed,
                partial_failure,
            }
        },
    }
}

/// Enumerates the partition identifiers `1..=n`, one independent pipeline
/// each. Enumerated once at startup and never mutated.
pub fn partition_ids(n: u64) -> (ids: Vec<u64>)
    ensures
        ids@.len() == n,
        forall|k: int| 0 <= k < n ==> #[trigger] ids@[k] == k + 1,
{
    let mut ids: Vec<u64> = Vec::new();
    let mut i: u64 = 0;
    while i < n
        invariant
            0 <= i <= n,
            ids@.len() == i,
            forall|k: int| 0 <= k < i ==> #[trigger] ids@[k] == k + 1,
        decreases n - i,
    {
        ids.push(i + 1);
        i = i + 1;
    }
    ids
}

/// One partition's inputs to the run: what its reader, its registration,
/// and its query tasks reported.
pub struct PartitionInput {
    pub load: LoadOutcome,
    pub register: RegisterOutcome,
    pub outcomes: Vec<TaskOutcome>,
}

/// Runs every partition's pipeline and joins them all: one report per
/// partition, each report depending only on that partition's own inputs,
/// so failure or partial failure in one pipeline has no effect on its
/// siblings.
pub fn run_partitions(inputs: Vec<PartitionInput>) -> (reports: Vec<PipelineReport>)
    requires
        forall|k: int|
            0 <= k < inputs@.len() ==> aliases_line_free((#[trigger] inputs@[k]).outcomes@),
    ensures
        reports@.len() == inputs@.len(),
        forall|k: int|
            0 <= k < inputs@.len() ==> {
                let inp = #[trigger] inputs@[k];
                let rep = reports@[k];
                &&& rep.error == pipeline_failure(inp.load, inp.register)
                &&& rep.stage == if pipeline_failure(inp.load, inp.register) is Some {
                    Stage::Failed
                } else {
                    Stage::Finished
                }
                &&& (pipeline_failure(inp.load, inp.register) is Some ==> rep.stream is None)
                &&& (pipeline_failure(inp.load, inp.register) is None ==> match rep.stream {
                    Some(s) => {
                        &&& s.well_formed()
                        &&& s.finished
                        &&& s.lines@ == record_lines(inp.outcomes@)
                        &&& rep.failed@.map_values(|a: String| a@) == failed_names(inp.outcomes@)
                        &&& s.lines@.len() + rep.failed@.len() == inp.outcomes@.len()
                    },
                    None => false,
                })
            },
{
    let ghost orig: Seq<PartitionInput> = inputs@;
    let mut remaining = inputs;
    let mut reports: Vec<PipelineReport> = Vec::new();
    while remaining.len() > 0
        invariant
            reports@.len() + remaining@.len() == orig.len(),
            forall|k: int|
                0 <= k < remaining@.len() ==> #[trigger] remaining@[k] == orig[reports@.len() + k],
            forall|k: int|
                0 <= k < orig.len() ==> aliases_line_free((#[trigger] orig[k]).outcomes@),
            forall|k: int|
                0 <= k < reports@.len() ==> {
                    let inp = #[trigger] orig[k];
                    let rep = reports@[k];
                    &&& rep.error == pipeline_failure(inp.load, inp.register)
                    &&& rep.stage == if pipeline_failure(inp.load, inp.register) is Some {
                        Stage::Failed
                    } else {
                        Stage::Finished
                    }
                    &&& (pipeline_failure(inp.load, inp.register) is Some ==> rep.stream is None)
                    &&& (pipeline_failure(inp.load, inp.register) is None ==> match rep.stream {
                        Some(s) => {
                            &&& s.well_formed()
                            &&& s.finished
                            &&& s.lines@ == record_lines(inp.outcomes@)
                            &&& rep.failed@.map_values(|a: String| a@) == failed_names(
                                inp.outcomes@,
                            )
                            &&& s.lines@.len() + rep.failed@.len() == inp.outcomes@.len()
                        },
                        None => false,
                    })
                },
        decreases remaining@.len(),
    {
        let ghost before: Seq<PartitionInput> = remaining@;
        let inp = remaining.remove(0);
        let ghost inpg: PartitionInput = inp;
        proof {
            assert(before[0] == inpg);
            assert(inpg == orig[reports@.len() as int]);
            assert forall|k: int| 0 <= k < remaining@.len() implies #[trigger] remaining@[k]
                == orig[reports@.len() + 1 + k] by {
                assert(remaining@[k] == before[k + 1]);
            }
        }
        let PartitionInput { load, register, outcomes } = inp;
        let report = run_pipeline(load, register, outcomes);
        reports.push(report);
    }
    proof {
        assert(reports@.len() == orig.len());
    }
    reports
}

/// The number of pipelines among the reports that failed outright.
pub open spec fn spec_failed_pipelines(reports: Seq<PipelineReport>) -> int
    decreases reports.len(),
{
    if reports.len() == 0 {
        0
    } else {
        spec_failed_pipelines(reports.drop_last()) + if reports.last().stage == Stage::Failed {
            1int
        } else {
            0int
        }
    }
}

/// The total number of failed tasks across the reports.
pub open spec fn spec_failed_tasks(reports: Seq<PipelineReport>) -> int
    decreases reports.len(),
{
    if reports.len() == 0 {
        0
    } else {
        spec_failed_tasks(reports.drop_last()) + reports.last().failed@.len()
    }
}

/// Both counts are never negative and grow along a prefix.
pub proof fn lemma_counts_prefix(reports: Seq<PipelineReport>, i: int)
    requires
        0 <= i <= reports.len(),
    ensures
        0 <= spec_failed_pipelines(reports.take(i)) <= spec_failed_pipelines(reports),
        0 <= spec_failed_tasks(reports.take(i)) <= spec_failed_tasks(reports),
    decreases reports.len() - i,
{
    if i == reports.len() {
        assert(reports.take(i) =~= reports);
        lemma_counts_nonneg(reports);
    } else {
        lemma_counts_prefix(reports, i + 1);
        lemma_counts_nonneg(reports.take(i));
        assert(reports.take(i + 1).drop_last() =~= reports.take(i));
        assert(reports.take(i + 1).last() == reports[i]);
    }
}

/// Both counts are never negative.
pub proof fn lemma_counts_nonneg(reports: Seq<PipelineReport>)
    ensures
        spec_failed_pipelines(reports) >= 0,
        spec_failed_tasks(reports) >= 0,
    decreases reports.len(),
{
    if reports.len() > 0 {
        lemma_counts_nonneg(reports.drop_last());
    }
}

/// What the run coordinator surfaces after every pipeline has joined: the
/// total count of failed pipelines and of failed tasks across the run.
pub struct RunSummary {
    pub failed_pipelines: u64,
    pub failed_tasks: u64,
}

/// Tallies the run's failures once all pipelines have joined. No failed
/// operation is retried; the counts are surfaced as they stand.
pub fn summarize(reports: &Vec<PipelineReport>) -> (s: RunSummary)
    requires
        spec_failed_pipelines(reports@) <= u64::MAX,
        spec_failed_tasks(reports@) <= u64::MAX,
    ensures
        s.failed_pipelines == spec_failed_pipelines(reports@),
        s.failed_tasks == spec_failed_tasks(reports@),
{
    let mut failed_pipelines: u64 = 0;
    let mut failed_tasks: u64 = 0;
    let mut i: usize = 0;
    while i < reports.len()
        invariant
            0 <= i <= reports@.len(),
            failed_pipelines == spec_failed_pipelines(reports@.take(i as int)),
            failed_tasks == spec_failed_tasks(reports@.take(i as int)),
            spec_failed_pipelines(reports@) <= u64::MAX,
            spec_failed_tasks(reports@) <= u64::MAX,
        decreases reports@.len() - i,
    {
        proof {
            lemma_counts_prefix(reports@, i as int + 1);
            assert(reports@.take(i as int + 1).drop_last() =~= reports@.take(i as int));
            assert(reports@.take(i as int + 1).last() == reports@[i as int]);
        }
        let report = &reports[i];
        if matches!(report.stage, Stage::Failed) {
            failed_pipelines = failed_pipelines + 1;
        }
        failed_tasks = failed_tasks + report.failed.len() as u64;
        i = i + 1;
    }
    proof {
        assert(reports@.take(reports@.len() as int) =~= reports@);
    }
    RunSummary { failed_pipelines, failed_tasks }
}

} // verus!
