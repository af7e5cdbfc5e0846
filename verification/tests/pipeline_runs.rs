use fanout_engine::outcome::TaskOutcome;
use fanout_engine::pipeline::{
    partition_ids, run_partitions, run_pipeline, step, summarize, Event, LoadOutcome,
    PartitionInput, PipelineError, RegisterOutcome, Stage,
};
use fanout_engine::query::{fan_out, Family};
use fanout_engine::record::ResultRecord;
use fanout_engine::table::{load_table, Batch};

fn completed(alias: &str, value: i64) -> TaskOutcome {
    TaskOutcome::Completed(ResultRecord { alias: String::from(alias), value })
}

#[test]
fn loads_every_row_of_every_file() {
    let batches = vec![Batch { schema_id: 7, rows: 30 }, Batch { schema_id: 7, rows: 70 }];
    let table = load_table(batches).unwrap();
    assert_eq!(table.row_count(), 100);
    assert_eq!(table.schema_id, 7);
}

#[test]
fn empty_partition_is_a_schema_error() {
    assert!(matches!(load_table(vec![]), Err(PipelineError::SchemaError)));
    let no_rows = vec![Batch { schema_id: 1, rows: 0 }];
    assert!(matches!(load_table(no_rows), Err(PipelineError::SchemaError)));
}

#[test]
fn enumerates_partition_identifiers() {
    assert_eq!(partition_ids(0), Vec::<u64>::new());
    assert_eq!(partition_ids(3), vec![1, 2, 3]);
}

#[test]
fn nominal_stage_walk_reaches_finished() {
    let mut stage = Stage::Loading;
    stage = step(stage, Event::LoadSucceeded);
    assert_eq!(stage, Stage::Registering);
    stage = step(stage, Event::RegisterSucceeded);
    assert_eq!(stage, Stage::FanningOut);
    stage = step(stage, Event::TasksSubmitted);
    assert_eq!(stage, Stage::Collecting);
    stage = step(stage, Event::TasksJoined);
    assert_eq!(stage, Stage::Finished);
}

#[test]
fn load_failure_fails_the_stage_walk() {
    assert_eq!(step(Stage::Loading, Event::LoadFailed), Stage::Failed);
    assert_eq!(step(Stage::Registering, Event::RegisterFailed), Stage::Failed);
}

#[test]
fn hundred_row_partition_with_two_columns() {
    // A partition with 100 rows and the two columns `amount1` and
    // `number1` fans out into exactly two aggregate queries.
    let batches = vec![Batch { schema_id: 1, rows: 100 }];
    let table = load_table(batches).unwrap();
    assert_eq!(table.row_count(), 100);
    let tasks = fan_out("t", 1, 1);
    assert_eq!(tasks.len(), 2);
    assert_eq!(tasks[0].query, "SELECT sum(t.amount1) as calc1 FROM t");
    assert_eq!(tasks[1].query, "SELECT sum(t.number1) as calc1 FROM t");
    // The engine reports the two column sums; the stream then holds
    // exactly two lines, each a one-key JSON object under `calc1`.
    let outcomes = vec![completed("calc1", 4950), completed("calc1", 5050)];
    let report = run_pipeline(
        LoadOutcome::Read(vec![Batch { schema_id: 1, rows: 100 }]),
        RegisterOutcome::Accepted,
        outcomes,
    );
    assert_eq!(report.stage, Stage::Finished);
    assert!(!report.partial_failure);
    let stream = report.stream.unwrap();
    assert_eq!(stream.data, "{\"calc1\":4950}\n{\"calc1\":5050}\n");
    assert_eq!(stream.data.lines().count(), 2);
}

#[test]
fn unreadable_partition_fails_without_a_stream() {
    let report = run_pipeline(LoadOutcome::Unreadable, RegisterOutcome::Accepted, vec![]);
    assert_eq!(report.stage, Stage::Failed);
    assert_eq!(report.error, Some(PipelineError::IOError));
    assert!(report.stream.is_none());
    assert!(report.failed.is_empty());
}

#[test]
fn empty_partition_fails_without_a_stream() {
    let report = run_pipeline(
        LoadOutcome::Read(vec![]),
        RegisterOutcome::Accepted,
        vec![completed("calc1", 1)],
    );
    assert_eq!(report.stage, Stage::Failed);
    assert_eq!(report.error, Some(PipelineError::SchemaError));
    assert!(report.stream.is_none());
}

#[test]
fn rejected_registration_fails_without_a_stream() {
    let report = run_pipeline(
        LoadOutcome::Read(vec![Batch { schema_id: 1, rows: 5 }]),
        RegisterOutcome::Rejected(PipelineError::IOError),
        vec![completed("calc1", 1)],
    );
    assert_eq!(report.stage, Stage::Failed);
    assert_eq!(report.error, Some(PipelineError::IOError));
    assert!(report.stream.is_none());
}

#[test]
fn failed_pipeline_leaves_siblings_untouched() {
    let inputs = vec![
        PartitionInput {
            load: LoadOutcome::Unreadable,
            register: RegisterOutcome::Accepted,
            outcomes: vec![],
        },
        PartitionInput {
            load: LoadOutcome::Read(vec![Batch { schema_id: 2, rows: 10 }]),
            register: RegisterOutcome::Accepted,
            outcomes: vec![completed("calc1", 55)],
        },
    ];
    let reports = run_partitions(inputs);
    assert_eq!(reports.len(), 2);
    assert_eq!(reports[0].stage, Stage::Failed);
    assert!(reports[0].stream.is_none());
    assert_eq!(reports[1].stage, Stage::Finished);
    let stream = reports[1].stream.as_ref().unwrap();
    assert_eq!(stream.data, "{\"calc1\":55}\n");
}

#[test]
fn one_failure_among_95_tasks_keeps_the_other_94() {
    let tasks = fan_out("t", 48, 47);
    assert_eq!(tasks.len(), 95);
    let mut outcomes = Vec::new();
    for (k, task) in tasks.iter().enumerate() {
        if k == 40 {
            // A query against a nonexistent column fails alone.
            outcomes.push(TaskOutcome::Failed(task.alias.clone()));
        } else {
            outcomes.push(completed(&task.alias, k as i64));
        }
    }
    let report = run_pipeline(
        LoadOutcome::Read(vec![Batch { schema_id: 3, rows: 2000 }]),
        RegisterOutcome::Accepted,
        outcomes,
    );
    assert_eq!(report.stage, Stage::Finished);
    assert!(report.partial_failure);
    assert_eq!(report.error, None);
    let stream = report.stream.unwrap();
    assert_eq!(stream.data.lines().count(), 94);
    assert_eq!(report.failed, vec![String::from("calc41")]);
}

#[test]
fn run_summary_counts_failures() {
    let inputs = vec![
        PartitionInput {
            load: LoadOutcome::Unreadable,
            register: RegisterOutcome::Accepted,
            outcomes: vec![],
        },
        PartitionInput {
            load: LoadOutcome::Read(vec![Batch { schema_id: 2, rows: 10 }]),
            register: RegisterOutcome::Accepted,
            outcomes: vec![
                completed("calc1", 1),
                TaskOutcome::Failed(String::from("calc2")),
                TaskOutcome::Failed(String::from("calc3")),
            ],
        },
    ];
    let reports = run_partitions(inputs);
    let summary = summarize(&reports);
    assert_eq!(summary.failed_pipelines, 1);
    assert_eq!(summary.failed_tasks, 2);
}

fn rerun_input() -> PartitionInput {
    PartitionInput {
        load: LoadOutcome::Read(vec![Batch { schema_id: 1, rows: 3 }]),
        register: RegisterOutcome::Accepted,
        outcomes: vec![completed("calc1", 6)],
    }
}

#[test]
fn rerun_overwrites_instead_of_appending() {
    let input = rerun_input();
    let first = run_pipeline(input.load, input.register, input.outcomes);
    let input = rerun_input();
    let second = run_pipeline(input.load, input.register, input.outcomes);
    let d1 = first.stream.unwrap().data;
    let d2 = second.stream.unwrap().data;
    // The second run produces a fresh stream with the same single record,
    // not a stream with the first run's records still in front.
    assert_eq!(d1, d2);
    assert_eq!(d2, "{\"calc1\":6}\n");
}
