use pipeline_engine::executor::{validate_pipeline, PipelineError, PipelineExecutor};
use pipeline_engine::json::Json;
use pipeline_engine::model::{Pipeline, PipelineStatus, PipelineStep, StepType, Timestamp};
use pipeline_engine::samples::{sample_data_transformer, sample_text_processor};

fn text(s: &str) -> Json {
    Json::String(s.to_string())
}

fn epoch() -> Timestamp {
    Timestamp { seconds: 0, nanos: 0 }
}

fn step(name: &str, timeout_seconds: u64) -> PipelineStep {
    PipelineStep {
        id: "s".to_string(),
        name: name.to_string(),
        step_type: StepType::Loop,
        config: Json::Null,
        timeout_seconds,
    }
}

fn pipeline(id: &str, name: &str, steps: Vec<PipelineStep>) -> Pipeline {
    Pipeline {
        id: id.to_string(),
        name: name.to_string(),
        description: String::new(),
        steps,
        status: PipelineStatus::Draft,
        created_at: epoch(),
        updated_at: epoch(),
        metadata: vec![("owner".to_string(), text("tests"))],
    }
}

fn good(id: &str) -> Pipeline {
    pipeline(id, "Good", vec![step("one", 1)])
}

fn refused(executor: &mut PipelineExecutor, p: Pipeline) -> String {
    let before: Vec<Pipeline> = executor.list_pipelines().into_iter().cloned().collect();
    let refusal = executor.create_pipeline(p).unwrap_err();
    let after: Vec<Pipeline> = executor.list_pipelines().into_iter().cloned().collect();
    assert_eq!(before, after);
    match refusal {
        PipelineError::Validation(message) => message,
        other => panic!("expected a validation error, not {:?}", other),
    }
}

#[test]
fn a_pipeline_without_a_name_is_refused() {
    let mut executor = PipelineExecutor::new();
    assert_eq!(
        refused(&mut executor, pipeline("p", "", vec![step("one", 1)])),
        "Pipeline name cannot be empty"
    );
    assert_eq!(refused(&mut executor, pipeline("p", "", vec![])), "Pipeline name cannot be empty");
    assert!(executor.get_pipeline("p").is_none());
}

#[test]
fn a_pipeline_without_steps_is_refused() {
    let mut executor = PipelineExecutor::new();
    executor.create_pipeline(good("kept")).unwrap();
    assert_eq!(
        refused(&mut executor, pipeline("p", "Named", vec![])),
        "Pipeline must have at least one step"
    );
    assert_eq!(
        refused(&mut executor, pipeline("kept", "Named", vec![])),
        "Pipeline must have at least one step"
    );
    assert_eq!(executor.get_pipeline("kept"), Some(&good("kept")));
}

#[test]
fn a_malformed_step_is_named_by_its_position() {
    let mut executor = PipelineExecutor::new();
    assert_eq!(
        refused(&mut executor, pipeline("p", "Named", vec![step("", 1)])),
        "Step 1 cannot have empty name"
    );
    assert_eq!(
        refused(&mut executor, pipeline("p", "Named", vec![step("one", 1), step("two", 0)])),
        "Step 2 must have a positive timeout"
    );
    assert_eq!(
        refused(&mut executor, pipeline("p", "Named", vec![step("one", 1), step("", 0)])),
        "Step 2 cannot have empty name"
    );
    assert_eq!(
        refused(
            &mut executor,
            pipeline("p", "Named", vec![step("one", 0), step("", 1), step("three", 1)])
        ),
        "Step 1 must have a positive timeout"
    );
    let mut many: Vec<PipelineStep> = (0..11).map(|_| step("fine", 5)).collect();
    many[10].timeout_seconds = 0;
    assert_eq!(
        refused(&mut executor, pipeline("p", "Named", many)),
        "Step 11 must have a positive timeout"
    );
    assert_eq!(validate_pipeline(&good("p")), None);
}

#[test]
fn a_well_formed_pipeline_is_stored() {
    let mut executor = PipelineExecutor::new();
    let stored = executor.create_pipeline(good("a")).unwrap().clone();
    assert_eq!(stored, good("a"));
    assert_eq!(executor.get_pipeline("a"), Some(&good("a")));
    assert_eq!(executor.get_pipeline("b"), None);
    executor.create_pipeline(good("b")).unwrap();
    assert_eq!(executor.list_pipelines(), vec![&good("a"), &good("b")]);
}

#[test]
fn creating_under_a_known_identifier_replaces() {
    let mut executor = PipelineExecutor::new();
    executor.create_pipeline(good("a")).unwrap();
    executor.create_pipeline(good("b")).unwrap();
    let mut renamed = good("a");
    renamed.name = "Better".to_string();
    executor.create_pipeline(renamed.clone()).unwrap();
    assert_eq!(executor.list_pipelines(), vec![&renamed, &good("b")]);
}

#[test]
fn updating_keeps_the_identifier_and_marks_the_time() {
    let mut executor = PipelineExecutor::new();
    executor.create_pipeline(good("a")).unwrap();
    let mut change = good("another id");
    change.description = "changed".to_string();
    change.steps.push(step("two", 2));
    let at = Timestamp { seconds: 77, nanos: 5 };
    let updated = executor.update_pipeline_at("a", change.clone(), at).unwrap().clone();
    assert_eq!(updated.id, "a");
    assert_eq!(updated.updated_at, at);
    assert_eq!(updated.created_at, change.created_at);
    assert_eq!(updated.description, "changed");
    assert_eq!(updated.steps, change.steps);
    assert_eq!(updated.metadata, change.metadata);
    assert_eq!(executor.get_pipeline("a"), Some(&updated));
    assert_eq!(executor.get_pipeline("another id"), None);
    assert_eq!(executor.list_pipelines().len(), 1);
}

#[test]
fn updating_reads_the_clock() {
    let mut executor = PipelineExecutor::new();
    executor.create_pipeline(good("a")).unwrap();
    let updated = executor.update_pipeline("a", good("a")).unwrap();
    assert!(updated.updated_at.seconds > 1_600_000_000);
    assert_eq!(updated.created_at, epoch());
}

#[test]
fn updating_an_unknown_pipeline_is_refused() {
    let mut executor = PipelineExecutor::new();
    executor.create_pipeline(good("a")).unwrap();
    assert_eq!(executor.update_pipeline("b", good("b")).unwrap_err(), PipelineError::NotFound);
    assert_eq!(
        executor.update_pipeline("b", pipeline("b", "", vec![])).unwrap_err(),
        PipelineError::NotFound
    );
    assert_eq!(executor.list_pipelines(), vec![&good("a")]);
}

#[test]
fn updating_to_a_malformed_pipeline_is_refused() {
    let mut executor = PipelineExecutor::new();
    executor.create_pipeline(good("a")).unwrap();
    assert_eq!(
        executor.update_pipeline("a", pipeline("a", "Named", vec![])).unwrap_err(),
        PipelineError::Validation("Pipeline must have at least one step".to_string())
    );
    assert_eq!(
        executor.update_pipeline("a", pipeline("a", "", vec![step("one", 1)])).unwrap_err().message(),
        "Pipeline name cannot be empty"
    );
    assert_eq!(executor.list_pipelines(), vec![&good("a")]);
}

#[test]
fn deleting_hands_the_pipeline_out() {
    let mut executor = PipelineExecutor::new();
    executor.create_pipeline(good("a")).unwrap();
    executor.create_pipeline(good("b")).unwrap();
    executor.create_pipeline(good("c")).unwrap();
    assert_eq!(executor.delete_pipeline("b"), Some(good("b")));
    assert_eq!(executor.delete_pipeline("b"), None);
    assert_eq!(executor.delete_pipeline("z"), None);
    assert_eq!(executor.list_pipelines(), vec![&good("a"), &good("c")]);
}

#[test]
fn the_samples_are_ready_and_well_formed() {
    let at = Timestamp { seconds: 9, nanos: 9 };
    let mut executor = PipelineExecutor::new();
    executor.initialize_sample_pipelines(at);
    let listed = executor.list_pipelines();
    assert_eq!(listed, vec![&sample_text_processor(at), &sample_data_transformer(at)]);
    for p in listed {
        assert_eq!(p.status, PipelineStatus::Ready);
        assert_eq!(p.steps.len(), 3);
        assert_eq!(p.created_at, at);
        assert_eq!(p.updated_at, at);
        assert_eq!(validate_pipeline(p), None);
        assert_eq!(p.metadata.len(), 2);
        assert_eq!(p.metadata[1], ("version".to_string(), text("1.0")));
    }
    let processor = executor.get_pipeline("pipeline-text-processor").unwrap();
    assert_eq!(processor.name, "Text Processor");
    assert_eq!(processor.steps[1].name, "Text Cleanup");
    assert_eq!(processor.steps[1].timeout_seconds, 60);
    assert_eq!(processor.steps[0].config.text_member("operation"), Some("validate"));
    assert_eq!(processor.steps[0].config.pointer("required_fields/0"), Some(&text("content")));
    let transformer = executor.get_pipeline("pipeline-data-transform").unwrap();
    assert_eq!(transformer.description, "Transforms data between different formats");
    assert_eq!(
        transformer.steps[1].config.pointer("transformations/0/operation"),
        Some(&text("multiply"))
    );
    assert_eq!(
        transformer.steps[1].config.pointer("transformations/1/field"),
        Some(&text("status"))
    );
}

#[test]
fn initializing_twice_keeps_two_pipelines() {
    let mut executor = PipelineExecutor::new();
    executor.initialize();
    executor.initialize();
    assert_eq!(executor.list_pipelines().len(), 2);
    assert!(executor.get_pipeline("pipeline-text-processor").unwrap().created_at.seconds > 0);
}

#[test]
fn no_identifier_is_stored_twice() {
    let mut executor = PipelineExecutor::new();
    for id in ["a", "b", "a", "c", "b", "a"] {
        executor.create_pipeline(good(id)).unwrap();
    }
    executor.initialize();
    executor.initialize();
    executor.update_pipeline("c", good("a")).unwrap();
    executor.delete_pipeline("b");
    executor.create_pipeline(good("b")).unwrap();
    let ids: Vec<String> = executor.list_pipelines().iter().map(|p| p.id.clone()).collect();
    let mut unique = ids.clone();
    unique.sort();
    unique.dedup();
    assert_eq!(unique.len(), ids.len());
    assert_eq!(ids.len(), 5);
    for listed in executor.list_pipelines() {
        assert_eq!(executor.get_pipeline(&listed.id), Some(listed));
    }
}
