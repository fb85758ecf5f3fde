use pipeline_engine::executor::{PipelineError, PipelineExecutor};
use pipeline_engine::json::Json;
use pipeline_engine::model::{
    Pipeline, PipelineExecution, PipelineStatus, PipelineStep, StepType, Timestamp,
};
use pipeline_engine::number::Number;
use pipeline_engine::run::PipelineRun;

fn text(s: &str) -> Json {
    Json::String(s.to_string())
}

fn whole(n: u64) -> Json {
    Json::Number(Number::from_u64(n))
}

fn object(members: Vec<(&str, Json)>) -> Json {
    Json::Object(members.into_iter().map(|(k, v)| (k.to_string(), v)).collect())
}

fn at(seconds: i64, millis: u32) -> Timestamp {
    Timestamp { seconds, nanos: millis * 1_000_000 }
}

fn step(id: &str, step_type: StepType, config: Json) -> PipelineStep {
    PipelineStep {
        id: id.to_string(),
        name: format!("Step {}", id),
        step_type,
        config,
        timeout_seconds: 30,
    }
}

fn operation(name: &str) -> Json {
    object(vec![("operation", text(name))])
}

fn pipeline(id: &str, status: PipelineStatus, steps: Vec<PipelineStep>) -> Pipeline {
    Pipeline {
        id: id.to_string(),
        name: "A pipeline".to_string(),
        description: "For the tests".to_string(),
        steps,
        status,
        created_at: at(1, 0),
        updated_at: at(1, 0),
        metadata: Vec::new(),
    }
}

fn validating() -> Pipeline {
    pipeline(
        "validating",
        PipelineStatus::Ready,
        vec![step("s1", StepType::TextProcessing, operation("validate"))],
    )
}

fn three_text_steps() -> Pipeline {
    pipeline(
        "three",
        PipelineStatus::Ready,
        vec![
            step("s1", StepType::TextProcessing, operation("cleanup")),
            step("s2", StepType::TextProcessing, operation("validate")),
            step("s3", StepType::TextProcessing, operation("format")),
        ],
    )
}

fn registry_with(pipelines: Vec<Pipeline>) -> PipelineExecutor {
    let mut executor = PipelineExecutor::new();
    for p in pipelines {
        executor.create_pipeline(p).unwrap();
    }
    executor
}

fn check_chain(execution: &PipelineExecution) {
    let results = &execution.step_results;
    if let Some(first) = results.first() {
        assert_eq!(first.input, execution.input);
    }
    for i in 1..results.len() {
        assert_eq!(results[i].input, results[i - 1].output);
    }
    for earlier in results.iter().rev().skip(1) {
        assert_eq!(earlier.status, PipelineStatus::Completed);
    }
    match results.last() {
        Some(last) => assert_eq!(execution.output, last.output),
        None => assert_eq!(execution.output, execution.input),
    }
}

#[test]
fn test_pipeline_creation() {
    let mut executor = PipelineExecutor::new();
    executor.initialize();
    let pipelines = executor.list_pipelines();
    assert!(!pipelines.is_empty());
}

#[test]
fn test_pipeline_execution() {
    let mut executor = PipelineExecutor::new();
    executor.initialize();

    let input = object(vec![("content", text("Hello,   World!"))]);

    let execution = executor.execute_pipeline("pipeline-text-processor", input).unwrap();
    assert_eq!(execution.status, PipelineStatus::Completed);
    assert!(!execution.step_results.is_empty());
}

#[test]
fn a_new_registry_is_empty() {
    let executor = PipelineExecutor::new();
    assert!(executor.list_pipelines().is_empty());
    assert!(executor.list_executions(None).is_empty());
    assert!(executor.get_pipeline("pipeline-text-processor").is_none());
}

#[test]
fn validating_a_content_completes() {
    let mut executor = registry_with(vec![validating()]);
    let input = object(vec![("content", text("hi"))]);
    let execution = executor.execute_pipeline("validating", input.clone()).unwrap();
    assert_eq!(execution.status, PipelineStatus::Completed);
    assert_eq!(
        execution.output,
        object(vec![
            ("content", text("hi")),
            ("length", whole(2)),
            ("valid", Json::Bool(true)),
            ("word_count", whole(1)),
        ])
    );
    assert_eq!(execution.error_message, None);
    assert_eq!(execution.step_results.len(), 1);
    assert_eq!(execution.input, input);
    assert_eq!(execution.pipeline_id, "validating");
    assert!(execution.completed_at.is_some());
    assert!(execution.execution_time_ms.is_some());
    check_chain(execution);
}

#[test]
fn validating_nothing_fails() {
    let mut executor = registry_with(vec![validating()]);
    let execution = executor.execute_pipeline("validating", object(vec![])).unwrap();
    assert_eq!(execution.status, PipelineStatus::Failed);
    assert_eq!(execution.step_results.len(), 1);
    assert_eq!(
        execution.step_results[0].output.get("error"),
        Some(&text("Missing 'content' field"))
    );
    assert_eq!(execution.step_results[0].status, PipelineStatus::Failed);
    assert_eq!(execution.error_message, Some("Missing 'content' field".to_string()));
    assert_eq!(
        execution.output,
        object(vec![("error", text("Missing 'content' field")), ("valid", Json::Bool(false))])
    );
    check_chain(execution);
}

#[test]
fn a_draft_is_not_run() {
    let draft = pipeline(
        "draft",
        PipelineStatus::Draft,
        vec![step("s1", StepType::TextProcessing, operation("validate"))],
    );
    let mut executor = registry_with(vec![draft]);
    let refusal = executor.execute_pipeline("draft", object(vec![])).unwrap_err();
    assert_eq!(refusal, PipelineError::NotReady);
    assert_eq!(refusal.message(), "Pipeline is not ready for execution");
    assert!(executor.list_executions(None).is_empty());
    assert_eq!(executor.get_execution_statistics().total_executions, 0);
}

#[test]
fn only_ready_pipelines_are_run() {
    for status in [
        PipelineStatus::Draft,
        PipelineStatus::Running,
        PipelineStatus::Completed,
        PipelineStatus::Failed,
        PipelineStatus::Cancelled,
    ] {
        let mut p = validating();
        p.status = status;
        let mut executor = registry_with(vec![p]);
        assert_eq!(
            executor.execute_pipeline("validating", object(vec![])).unwrap_err(),
            PipelineError::NotReady
        );
        assert!(executor.list_executions(None).is_empty());
    }
}

#[test]
fn an_unknown_pipeline_is_not_found() {
    let mut executor = registry_with(vec![validating()]);
    let refusal = executor.execute_pipeline("nowhere", object(vec![])).unwrap_err();
    assert_eq!(refusal, PipelineError::NotFound);
    assert_eq!(refusal.message(), "Pipeline not found");
    assert!(executor.list_executions(None).is_empty());
}

#[test]
fn every_step_runs_when_none_fails() {
    let mut executor = registry_with(vec![three_text_steps()]);
    let input = object(vec![("content", text("  Hello,   World!  "))]);
    let execution = executor.execute_pipeline("three", input).unwrap();
    assert_eq!(execution.status, PipelineStatus::Completed);
    assert_eq!(execution.step_results.len(), 3);
    assert_eq!(execution.error_message, None);
    assert_eq!(
        execution.output,
        object(vec![("content", text("Hello, World!")), ("format_type", text("plain"))])
    );
    let ids: Vec<&str> = execution.step_results.iter().map(|r| r.step_id.as_str()).collect();
    assert_eq!(ids, vec!["s1", "s2", "s3"]);
    assert_eq!(execution.step_results[1].step_name, "Step s2");
    check_chain(execution);
}

#[test]
fn the_failing_step_is_the_last_to_run() {
    let mut executor = registry_with(vec![three_text_steps()]);
    let input = object(vec![("content", text("   "))]);
    let execution = executor.execute_pipeline("three", input).unwrap();
    assert_eq!(execution.status, PipelineStatus::Failed);
    assert_eq!(execution.step_results.len(), 2);
    assert_eq!(execution.step_results[0].status, PipelineStatus::Completed);
    assert_eq!(execution.step_results[1].status, PipelineStatus::Failed);
    assert_eq!(execution.error_message, Some("Content cannot be empty".to_string()));
    assert_eq!(
        execution.step_results[1].error_message,
        Some("Content cannot be empty".to_string())
    );
    assert!(!execution.error_message.as_ref().unwrap().is_empty());
    check_chain(execution);
}

#[test]
fn a_failing_first_step_leaves_one_record() {
    let mut executor = registry_with(vec![three_text_steps()]);
    let execution = executor.execute_pipeline("three", object(vec![])).unwrap();
    assert_eq!(execution.status, PipelineStatus::Failed);
    assert_eq!(execution.step_results.len(), 1);
    assert_eq!(execution.output, object(vec![("error", text("Missing 'content' field"))]));
    assert_ne!(execution.output, execution.input);
    check_chain(execution);
}

#[test]
fn the_sample_transformer_doubles_and_shouts() {
    let mut executor = PipelineExecutor::new();
    executor.initialize();
    let input = object(vec![("status", text("ok")), ("value", whole(5))]);
    let execution = executor.execute_pipeline("pipeline-data-transform", input.clone()).unwrap();
    assert_eq!(execution.status, PipelineStatus::Completed);
    assert_eq!(execution.step_results.len(), 3);
    let mapped = &execution.step_results[1].output;
    let parsed = &execution.step_results[0].output;
    assert_eq!(parsed.get("parsed_data"), Some(&input));
    assert_eq!(mapped.get("original_data"), Some(parsed));
    assert_eq!(mapped.get("transformed_data"), Some(parsed));
    assert_eq!(mapped.get("transformations_applied"), Some(&whole(2)));
    assert_eq!(execution.output.get("serialized_data"), Some(mapped));
    check_chain(execution);
}

#[test]
fn runs_are_stored_and_found_again() {
    let mut executor = registry_with(vec![validating(), three_text_steps()]);
    let first = executor
        .execute_pipeline("validating", object(vec![("content", text("a"))]))
        .unwrap()
        .clone();
    let second = executor.execute_pipeline("validating", object(vec![])).unwrap().clone();
    let third = executor
        .execute_pipeline("three", object(vec![("content", text("b"))]))
        .unwrap()
        .clone();
    assert_ne!(first.id, second.id);
    assert_eq!(first.id.len(), 36);
    assert_eq!(executor.get_execution(&first.id), Some(&first));
    assert_eq!(executor.get_execution(&third.id), Some(&third));
    assert_eq!(executor.get_execution("no such run"), None);
    assert_eq!(executor.list_executions(None), vec![&first, &second, &third]);
    assert_eq!(
        executor.list_executions(Some("validating".to_string())),
        vec![&first, &second]
    );
    assert_eq!(executor.list_executions(Some("three".to_string())), vec![&third]);
    assert!(executor.list_executions(Some("other".to_string())).is_empty());
    let statistics = executor.get_execution_statistics();
    assert_eq!(statistics.total_executions, 3);
    assert_eq!(statistics.successful, 2);
    assert_eq!(statistics.failed, 1);
}

#[test]
fn the_clock_is_read_for_every_run() {
    let mut executor = registry_with(vec![validating()]);
    let execution =
        executor.execute_pipeline("validating", object(vec![("content", text("a"))])).unwrap();
    assert!(execution.started_at.seconds > 1_600_000_000);
    let completed = execution.completed_at.unwrap();
    assert!(
        (completed.seconds, completed.nanos)
            >= (execution.started_at.seconds, execution.started_at.nanos)
    );
    let step = &execution.step_results[0];
    assert!(step.started_at.seconds >= execution.started_at.seconds);
    assert_eq!(step.execution_time_ms, step.started_at.millis_until(&step.completed_at.unwrap()));
    assert_eq!(execution.execution_time_ms, Some(step.execution_time_ms));
}

#[test]
fn deleting_a_pipeline_keeps_its_runs() {
    let mut executor = registry_with(vec![validating()]);
    let id = executor
        .execute_pipeline("validating", object(vec![("content", text("a"))]))
        .unwrap()
        .id
        .clone();
    assert!(executor.delete_pipeline("validating").is_some());
    assert!(executor.get_execution(&id).is_some());
    assert_eq!(
        executor.execute_pipeline("validating", object(vec![])).unwrap_err(),
        PipelineError::NotFound
    );
}

#[test]
fn a_run_goes_step_by_step() {
    let p = three_text_steps();
    let input = object(vec![("content", text("a  b"))]);
    let mut run = PipelineRun::begin(&p, "run-1".to_string(), input.clone(), at(100, 0));
    assert!(!run.finished());
    assert_eq!(run.next_step().map(|s| s.id.as_str()), Some("s1"));
    run = run.advance(at(100, 0), at(100, 250));
    assert!(!run.finished());
    assert_eq!(run.next_step().map(|s| s.id.as_str()), Some("s2"));
    run = run.advance(at(101, 0), at(101, 500));
    run = run.advance(at(102, 0), at(103, 1));
    assert!(run.finished());
    assert!(run.next_step().is_none());
    run = run.advance(at(104, 0), at(105, 0));
    let execution = run.finish(at(110, 0));
    assert_eq!(execution.id, "run-1");
    assert_eq!(execution.pipeline_id, "three");
    assert_eq!(execution.status, PipelineStatus::Completed);
    assert_eq!(execution.input, input);
    assert_eq!(execution.started_at, at(100, 0));
    assert_eq!(execution.completed_at, Some(at(110, 0)));
    assert_eq!(execution.step_results.len(), 3);
    assert_eq!(execution.step_results[0].started_at, at(100, 0));
    assert_eq!(execution.step_results[0].completed_at, Some(at(100, 250)));
    assert_eq!(execution.step_results[0].execution_time_ms, 250);
    assert_eq!(execution.step_results[1].execution_time_ms, 500);
    assert_eq!(execution.step_results[2].execution_time_ms, 1001);
    assert_eq!(execution.execution_time_ms, Some(1751));
    assert_eq!(execution.error_message, None);
    check_chain(&execution);
}

#[test]
fn a_run_stops_at_a_failure() {
    let p = three_text_steps();
    let mut run = PipelineRun::begin(&p, "run-2".to_string(), object(vec![]), at(0, 0));
    run = run.advance(at(0, 0), at(0, 10));
    assert!(run.finished());
    assert!(run.next_step().is_none());
    run = run.advance(at(1, 0), at(2, 0));
    let execution = run.finish(at(3, 0));
    assert_eq!(execution.status, PipelineStatus::Failed);
    assert_eq!(execution.step_results.len(), 1);
    assert_eq!(execution.execution_time_ms, Some(10));
    assert_eq!(execution.error_message, Some("Missing 'content' field".to_string()));
}

#[test]
fn a_run_ended_early_is_cancelled() {
    let p = three_text_steps();
    let input = object(vec![("content", text("a"))]);
    let mut run = PipelineRun::begin(&p, "run-3".to_string(), input.clone(), at(0, 0));
    run = run.advance(at(0, 0), at(0, 10));
    let execution = run.finish(at(1, 0));
    assert_eq!(execution.status, PipelineStatus::Cancelled);
    assert_eq!(execution.step_results.len(), 1);
    assert_eq!(execution.step_results[0].status, PipelineStatus::Completed);
    assert_eq!(execution.output, execution.step_results[0].output);
    assert_eq!(execution.error_message, None);
    let untouched = PipelineRun::begin(&p, "run-4".to_string(), input.clone(), at(0, 0));
    let execution = untouched.finish(at(1, 0));
    assert_eq!(execution.status, PipelineStatus::Cancelled);
    assert!(execution.step_results.is_empty());
    assert_eq!(execution.output, input);
    assert_eq!(execution.execution_time_ms, Some(0));
}

#[test]
fn a_step_that_overruns_its_limit_fails() {
    let mut p = validating();
    p.steps[0].timeout_seconds = 2;
    let input = object(vec![("content", text("a"))]);
    let in_time = PipelineRun::begin(&p, "r".to_string(), input.clone(), at(0, 0))
        .advance(at(10, 0), at(12, 0))
        .finish(at(13, 0));
    assert_eq!(in_time.status, PipelineStatus::Completed);
    assert_eq!(in_time.step_results[0].execution_time_ms, 2000);
    let late = PipelineRun::begin(&p, "r".to_string(), input.clone(), at(0, 0))
        .advance(at(10, 0), at(12, 1))
        .finish(at(13, 0));
    assert_eq!(late.status, PipelineStatus::Failed);
    assert_eq!(late.error_message, Some("Timeout".to_string()));
    assert_eq!(late.step_results[0].status, PipelineStatus::Failed);
    assert_eq!(late.step_results[0].output, object(vec![("error", text("Timeout"))]));
    assert_eq!(late.step_results[0].input, input);
    assert_eq!(late.step_results[0].execution_time_ms, 2001);
}

#[test]
fn a_clock_that_steps_back_counts_as_no_time() {
    let p = validating();
    let input = object(vec![("content", text("a"))]);
    let execution = PipelineRun::begin(&p, "r".to_string(), input, at(0, 0))
        .advance(at(10, 0), at(9, 0))
        .finish(at(13, 0));
    assert_eq!(execution.status, PipelineStatus::Completed);
    assert_eq!(execution.step_results[0].execution_time_ms, 0);
}

#[test]
fn elapsed_time_is_in_whole_milliseconds() {
    let t = |seconds: i64, nanos: u32| Timestamp { seconds, nanos };
    assert_eq!(t(0, 0).millis_until(&t(0, 999_999)), 0);
    assert_eq!(t(0, 0).millis_until(&t(0, 1_000_000)), 1);
    assert_eq!(t(1, 900_000_000).millis_until(&t(2, 100_000_000)), 200);
    assert_eq!(t(5, 0).millis_until(&t(5, 0)), 0);
    assert_eq!(t(5, 1).millis_until(&t(5, 0)), 0);
    assert_eq!(t(-1, 0).millis_until(&t(1, 500_000_000)), 2500);
    assert_eq!(t(i64::MIN, 0).millis_until(&t(i64::MAX, 0)), u64::MAX);
    assert_eq!(t(0, 0).millis_until(&t(18_446_744_073_709_551, 615_000_000)), u64::MAX);
    assert_eq!(t(0, 0).millis_until(&t(18_446_744_073_709_551, 614_000_000)), u64::MAX - 1);
}

#[test]
fn a_run_keeps_the_steps_it_began_with() {
    let mut executor = registry_with(vec![three_text_steps()]);
    let input = object(vec![("content", text("a"))]);
    let mut run = executor
        .begin_execution("three", input, "run-5".to_string(), at(0, 0))
        .ok()
        .unwrap();
    run = run.advance(at(0, 0), at(0, 1));
    let mut shorter = three_text_steps();
    shorter.steps.truncate(1);
    executor.update_pipeline("three", shorter).unwrap();
    while !run.finished() {
        run = run.advance(at(1, 0), at(1, 1));
    }
    let execution = run.finish(at(2, 0));
    assert_eq!(execution.step_results.len(), 3);
    assert_eq!(execution.status, PipelineStatus::Completed);
    let stored = executor.record_execution(execution.clone());
    assert_eq!(stored, &execution);
    assert_eq!(executor.get_execution("run-5"), Some(&execution));
}

#[test]
fn beginning_a_run_asks_for_a_ready_pipeline() {
    let mut draft = validating();
    draft.status = PipelineStatus::Draft;
    draft.id = "draft".to_string();
    let executor = registry_with(vec![validating(), draft]);
    assert!(executor.begin_execution("validating", Json::Null, "r".to_string(), at(0, 0)).is_ok());
    assert_eq!(
        executor.begin_execution("draft", Json::Null, "r".to_string(), at(0, 0)).err(),
        Some(PipelineError::NotReady)
    );
    assert_eq!(
        executor.begin_execution("none", Json::Null, "r".to_string(), at(0, 0)).err(),
        Some(PipelineError::NotFound)
    );
}

#[test]
fn storing_a_run_under_a_known_identifier_replaces_it() {
    let mut executor = registry_with(vec![validating()]);
    let p = validating();
    let first = PipelineRun::begin(&p, "same".to_string(), whole(1), at(0, 0)).finish(at(1, 0));
    let other = PipelineRun::begin(&p, "other".to_string(), whole(2), at(0, 0)).finish(at(1, 0));
    let second = PipelineRun::begin(&p, "same".to_string(), whole(3), at(0, 0)).finish(at(1, 0));
    executor.record_execution(first);
    executor.record_execution(other.clone());
    executor.record_execution(second.clone());
    assert_eq!(executor.list_executions(None), vec![&second, &other]);
}

#[test]
fn runs_end_in_a_terminal_state() {
    assert!(PipelineStatus::Completed.is_terminal());
    assert!(PipelineStatus::Failed.is_terminal());
    assert!(PipelineStatus::Cancelled.is_terminal());
    assert!(!PipelineStatus::Draft.is_terminal());
    assert!(!PipelineStatus::Ready.is_terminal());
    assert!(!PipelineStatus::Running.is_terminal());
    let mut executor = registry_with(vec![validating()]);
    let done = executor.execute_pipeline("validating", object(vec![])).unwrap();
    assert!(done.status.is_terminal());
}

#[test]
fn a_run_underway_shows_its_progress() {
    let p = three_text_steps();
    let input = object(vec![("content", text("a"))]);
    let mut run = PipelineRun::begin(&p, "run-6".to_string(), input.clone(), at(5, 0));
    {
        let progress = run.progress();
        assert_eq!(progress.status, PipelineStatus::Running);
        assert_eq!(progress.id, "run-6");
        assert_eq!(progress.pipeline_id, "three");
        assert_eq!(progress.input, input);
        assert_eq!(progress.output, Json::Null);
        assert_eq!(progress.started_at, at(5, 0));
        assert_eq!(progress.completed_at, None);
        assert_eq!(progress.error_message, None);
        assert_eq!(progress.execution_time_ms, None);
        assert!(progress.step_results.is_empty());
    }
    run = run.advance(at(5, 0), at(5, 5));
    assert_eq!(run.progress().status, PipelineStatus::Running);
    assert_eq!(run.progress().step_results.len(), 1);
    assert_eq!(run.progress().output, Json::Null);
}

#[test]
fn a_step_is_recorded_once_its_end_is_known() {
    let p = three_text_steps();
    let input = object(vec![("content", text("a  b"))]);
    let mut run = PipelineRun::begin(&p, "run-7".to_string(), input.clone(), at(0, 0));
    run = run.complete(at(9, 0));
    assert!(run.progress().step_results.is_empty());
    run = run.perform(at(1, 0));
    assert!(run.progress().step_results.is_empty());
    assert!(!run.finished());
    assert_eq!(run.next_step().map(|s| s.id.as_str()), Some("s1"));
    run = run.complete(at(1, 40));
    assert_eq!(run.progress().step_results.len(), 1);
    assert_eq!(run.progress().step_results[0].started_at, at(1, 0));
    assert_eq!(run.progress().step_results[0].completed_at, Some(at(1, 40)));
    assert_eq!(run.progress().step_results[0].execution_time_ms, 40);
    run = run.complete(at(2, 0));
    assert_eq!(run.progress().step_results.len(), 1);
    run = run.perform(at(3, 0)).perform(at(4, 0)).complete(at(4, 5));
    assert_eq!(run.progress().step_results.len(), 2);
    assert_eq!(run.progress().step_results[1].started_at, at(4, 0));
    assert_eq!(run.progress().step_results[1].execution_time_ms, 5);
    let same = PipelineRun::begin(&p, "run-7".to_string(), input, at(0, 0))
        .advance(at(1, 0), at(1, 40))
        .advance(at(4, 0), at(4, 5));
    assert_eq!(same.progress(), run.progress());
}

#[test]
fn a_step_underway_leaves_no_record_when_the_run_is_ended() {
    let p = three_text_steps();
    let input = object(vec![("content", text("a"))]);
    let execution = PipelineRun::begin(&p, "run-8".to_string(), input.clone(), at(0, 0))
        .advance(at(0, 0), at(0, 1))
        .perform(at(1, 0))
        .finish(at(2, 0));
    assert_eq!(execution.status, PipelineStatus::Cancelled);
    assert_eq!(execution.step_results.len(), 1);
    assert_eq!(execution.output, execution.step_results[0].output);
}

#[test]
fn a_late_end_fails_the_step_whose_operator_has_worked() {
    let mut p = validating();
    p.steps[0].timeout_seconds = 1;
    let input = object(vec![("content", text("a"))]);
    let execution = PipelineRun::begin(&p, "r".to_string(), input, at(0, 0))
        .perform(at(0, 0))
        .complete(at(1, 1))
        .finish(at(2, 0));
    assert_eq!(execution.status, PipelineStatus::Failed);
    assert_eq!(execution.error_message, Some("Timeout".to_string()));
}
