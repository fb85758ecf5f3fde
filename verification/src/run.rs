//! One run of a pipeline, a step at a time.
//!
//! A run takes the steps of its pipeline as they are when it begins. Each
//! step receives what the step before it made, and the first step that
//! fails is the last to run. Whoever drives the run supplies the clock
//! readings, so a run can pause between steps: it reads the clock, lets the
//! step's operator work, reads the clock again, and has the step recorded.

use crate::json::{Json, JsonValue};
use crate::model::{
    clone_steps, clone_text, elapsed_millis, ExecutionRecord, Pipeline, PipelineExecution, PipelineStatus,
    PipelineStep, StepRecord, StepResult, StepSpec, Timestamp,
};
use crate::outcome::{conclude, fail, failure, outcome_of, Outcome, StepOutcome};
use crate::steps::{execute_step, step_outcome};
use vstd::prelude::*;

verus! {

/// Whether a step that ran from `start` to `end` overran its time limit.
pub open spec fn timed_out(step: StepSpec, start: Timestamp, end: Timestamp) -> bool {
    elapsed_millis(start, end) > step.timeout_seconds * 1000
}

/// How a step that ran from `start` to `end` ends: as its operator says,
/// unless it overran its time limit, which is a failure of its own.
pub open spec fn timed_outcome(step: StepSpec, input: JsonValue, start: Timestamp, end: Timestamp)
    -> Outcome {
    if timed_out(step, start, end) {
        outcome_of(failure("Timeout"@))
    } else {
        step_outcome(step, input, start)
    }
}

/// The record of a step that ran on `input` from `start` to `end`.
pub open spec fn step_record(step: StepSpec, input: JsonValue, start: Timestamp, end: Timestamp)
    -> StepRecord {
    let outcome = timed_outcome(step, input, start, end);
    StepRecord {
        step_id: step.id,
        step_name: step.name,
        status: outcome.status,
        input,
        output: outcome.output,
        started_at: start,
        completed_at: Some(end),
        error_message: outcome.error_message,
        execution_time_ms: elapsed_millis(start, end) as u64,
    }
}

/// What the step after `results` receives: the output of the last step,
/// or the input of the run where no step has run.
pub open spec fn data_after(input: JsonValue, results: Seq<StepRecord>) -> JsonValue {
    if results.len() == 0 {
        input
    } else {
        results.last().output
    }
}

/// Whether `results` records the first steps of `steps` run in order on
/// `input`: each step on what the step before it made, each record as its
/// step and its clock readings determine it, and no step after a failure.
pub open spec fn is_trace(steps: Seq<StepSpec>, input: JsonValue, results: Seq<StepRecord>)
    -> bool {
    &&& results.len() <= steps.len()
    &&& forall|i: int|
        0 <= i < results.len() ==> (#[trigger] results[i]).completed_at is Some && results[i]
            == step_record(
            steps[i],
            data_after(input, results.take(i)),
            results[i].started_at,
            results[i].completed_at->0,
        )
    &&& forall|i: int|
        0 <= i < results.len() - 1 ==> (#[trigger] results[i]).status != PipelineStatus::Failed
}

/// The time that the steps took together, in milliseconds, and no more
/// than 64 bits hold.
pub open spec fn total_millis(results: Seq<StepRecord>) -> int
    decreases results.len(),
{
    if results.len() == 0 {
        0
    } else {
        let sum = total_millis(results.drop_last()) + results.last().execution_time_ms;
        if sum > u64::MAX {
            u64::MAX as int
        } else {
            sum
        }
    }
}

/// Whether a step of the trace has failed.
pub open spec fn has_failed(results: Seq<StepRecord>) -> bool {
    results.len() > 0 && results.last().status == PipelineStatus::Failed
}

/// Whether nothing is left to run: a step has failed, or every step ran.
pub open spec fn is_finished(steps: Seq<StepSpec>, results: Seq<StepRecord>) -> bool {
    has_failed(results) || results.len() >= steps.len()
}

/// The state in which a run with these records ends: failed where a step
/// failed, completed where every step ran, cancelled where it was ended
/// before that.
pub open spec fn final_status(steps: Seq<StepSpec>, results: Seq<StepRecord>) -> PipelineStatus {
    if has_failed(results) {
        PipelineStatus::Failed
    } else if results.len() >= steps.len() {
        PipelineStatus::Completed
    } else {
        PipelineStatus::Cancelled
    }
}

/// Whether `e` records a run of `steps` on `input` that has ended.
pub open spec fn is_run(e: ExecutionRecord, steps: Seq<StepSpec>, input: JsonValue) -> bool {
    &&& e.input == input
    &&& is_trace(steps, input, e.step_results)
    &&& e.status == final_status(steps, e.step_results)
    &&& e.output == data_after(input, e.step_results)
    &&& e.error_message == if has_failed(e.step_results) {
        e.step_results.last().error_message
    } else {
        None
    }
    &&& e.completed_at is Some
    &&& e.execution_time_ms == Some(total_millis(e.step_results) as u64)
}

/// Whether `e` records a run that has not ended: it is `Running`, and
/// bears neither an output nor an end, an error or a duration.
pub open spec fn is_underway(e: ExecutionRecord) -> bool {
    &&& e.status == PipelineStatus::Running
    &&& e.output == JsonValue::Null
    &&& e.completed_at is None
    &&& e.error_message is None
    &&& e.execution_time_ms is None
}

/// A step whose operator has worked and whose end is yet to be recorded.
struct StepUnderway {
    start: Timestamp,
    outcome: StepOutcome,
}

/// A run in progress.
pub struct PipelineRun {
    steps: Vec<PipelineStep>,
    execution: PipelineExecution,
    current: Json,
    total_ms: u64,
    underway: Option<StepUnderway>,
}

impl PipelineRun {
    /// The steps that the run goes through.
    pub closed spec fn steps(&self) -> Seq<StepSpec> {
        self.steps.deep_view()
    }

    /// The records of the steps that have run.
    pub closed spec fn results(&self) -> Seq<StepRecord> {
        self.execution@.step_results
    }

    /// The input of the run.
    pub closed spec fn input(&self) -> JsonValue {
        self.execution@.input
    }

    /// The identifier of the run.
    pub closed spec fn id(&self) -> Seq<char> {
        self.execution@.id
    }

    /// The identifier of the pipeline that is run.
    pub closed spec fn pipeline_id(&self) -> Seq<char> {
        self.execution@.pipeline_id
    }

    /// The time at which the run began.
    pub closed spec fn started_at(&self) -> Timestamp {
        self.execution@.started_at
    }

    /// The time at which the step began whose operator has worked and
    /// whose end is yet to be recorded, where there is such a step.
    pub closed spec fn underway(&self) -> Option<Timestamp> {
        match self.underway {
            Some(step) => Some(step.start),
            None => None,
        }
    }

    #[verifier::type_invariant]
    closed spec fn in_order(&self) -> bool {
        &&& is_trace(self.steps(), self.input(), self.results())
        &&& self.current@ == data_after(self.input(), self.results())
        &&& self.total_ms == total_millis(self.results())
        &&& is_underway(self.execution@)
        &&& match self.underway {
            Some(step) => !is_finished(self.steps(), self.results()) && step.outcome@
                == step_outcome(
                self.steps()[self.results().len() as int],
                data_after(self.input(), self.results()),
                step.start,
            ),
            None => true,
        }
    }

    /// Begins a run of `pipeline` on `input`, under the identifier
    /// `execution_id`. No step has run yet.
    pub fn begin(pipeline: &Pipeline, execution_id: String, input: Json, started_at: Timestamp)
        -> (r: PipelineRun)
        ensures
            r.steps() == pipeline@.steps,
            r.results() == Seq::<StepRecord>::empty(),
            r.input() == input@,
            r.id() == execution_id@,
            r.pipeline_id() == pipeline@.id,
            r.started_at() == started_at,
            r.underway() is None,
    {
        let current = input.clone();
        let execution = PipelineExecution {
            id: execution_id,
            pipeline_id: pipeline.id.clone(),
            status: PipelineStatus::Running,
            input,
            output: Json::Null,
            started_at,
            completed_at: None,
            error_message: None,
            step_results: Vec::new(),
            execution_time_ms: None,
        };
        assert(execution@.step_results =~= Seq::<StepRecord>::empty());
        PipelineRun {
            steps: clone_steps(&pipeline.steps),
            execution,
            current,
            total_ms: 0,
            underway: None,
        }
    }

    /// The record of the run as it stands: still running, with the
    /// records of the steps that have run.
    pub fn progress(&self) -> (r: &PipelineExecution)
        ensures
            is_underway(r@),
            r@.step_results == self.results(),
            r@.input == self.input(),
            r@.id == self.id(),
            r@.pipeline_id == self.pipeline_id(),
            r@.started_at == self.started_at(),
            is_trace(self.steps(), self.input(), self.results()),
    {
        proof {
            use_type_invariant(self);
        }
        &self.execution
    }

    /// Whether nothing is left to run.
    pub fn finished(&self) -> (r: bool)
        ensures
            r == is_finished(self.steps(), self.results()),
            is_trace(self.steps(), self.input(), self.results()),
    {
        proof {
            use_type_invariant(self);
        }
        let done = self.execution.step_results.len();
        if done > 0 && self.execution.step_results[done - 1].status == PipelineStatus::Failed {
            true
        } else {
            done >= self.steps.len()
        }
    }

    /// The step that runs next, where one is left.
    pub fn next_step(&self) -> (r: Option<&PipelineStep>)
        ensures
            match r {
                Some(step) => !is_finished(self.steps(), self.results()) && step@
                    == self.steps()[self.results().len() as int],
                None => is_finished(self.steps(), self.results()),
            },
    {
        proof {
            use_type_invariant(self);
        }
        if self.finished() {
            None
        } else {
            Some(&self.steps[self.execution.step_results.len()])
        }
    }

    /// Lets the operator of the next step work, the step having begun at
    /// `start`. The step is recorded once its end is known. Where no step is
    /// left to run, the run stays as it is.
    pub fn perform(self, start: Timestamp) -> (r: PipelineRun)
        ensures
            r.steps() == self.steps(),
            r.input() == self.input(),
            r.id() == self.id(),
            r.pipeline_id() == self.pipeline_id(),
            r.started_at() == self.started_at(),
            r.results() == self.results(),
            r.underway() == if is_finished(self.steps(), self.results()) {
                None
            } else {
                Some(start)
            },
    {
        proof {
            use_type_invariant(&self);
        }
        if self.finished() {
            return self;
        }
        let PipelineRun { steps, execution, current, total_ms, underway: _ } = self;
        let outcome = execute_step(&steps[execution.step_results.len()], &current, &start);
        PipelineRun {
            steps,
            execution,
            current,
            total_ms,
            underway: Some(StepUnderway { start, outcome }),
        }
    }

    /// Records the step whose operator has worked, the step having ended at
    /// `end`: as its operator left it, or as a failure where it overran its
    /// time limit. Where no operator has worked since the last record, the
    /// run stays as it is.
    pub fn complete(self, end: Timestamp) -> (r: PipelineRun)
        ensures
            r.steps() == self.steps(),
            r.input() == self.input(),
            r.id() == self.id(),
            r.pipeline_id() == self.pipeline_id(),
            r.started_at() == self.started_at(),
            r.underway() is None,
            r.results() == match self.underway() {
                Some(start) => self.results().push(
                    step_record(
                        self.steps()[self.results().len() as int],
                        data_after(self.input(), self.results()),
                        start,
                        end,
                    ),
                ),
                None => self.results(),
            },
            is_trace(r.steps(), r.input(), r.results()),
    {
        proof {
            use_type_invariant(&self);
        }
        let ghost before = self.results();
        let ghost steps = self.steps();
        let ghost input = self.input();
        let PipelineRun { steps: own_steps, execution: mut execution, current, total_ms, underway } =
            self;
        let StepUnderway { start, outcome: worked } = match underway {
            Some(step) => step,
            None => {
                return PipelineRun {
                    steps: own_steps,
                    execution,
                    current,
                    total_ms,
                    underway: None,
                };
            },
        };
        let n = execution.step_results.len();
        let step = &own_steps[n];
        let elapsed = start.millis_until(&end);
        let over = elapsed / 1000 > step.timeout_seconds || (elapsed / 1000 == step.timeout_seconds
            && elapsed % 1000 > 0);
        let outcome = if over {
            conclude(fail("Timeout"))
        } else {
            worked
        };
        let next = outcome.output.clone();
        let result = StepResult {
            step_id: step.id.clone(),
            step_name: step.name.clone(),
            status: outcome.status,
            input: current,
            output: outcome.output,
            started_at: start,
            completed_at: Some(end),
            error_message: outcome.error_message,
            execution_time_ms: elapsed,
        };
        let ghost record = result@;
        execution.step_results.push(result);
        proof {
            let after = execution@.step_results;
            assert(after =~= before.push(record));
            assert(after.drop_last() =~= before);
            assert(record == step_record(steps[n as int], data_after(input, before), start, end));
            assert forall|i: int| 0 <= i < after.len() implies (#[trigger] after[i]).completed_at
                is Some && after[i] == step_record(
                steps[i],
                data_after(input, after.take(i)),
                after[i].started_at,
                after[i].completed_at->0,
            ) by {
                if i < n {
                    assert(after[i] == before[i]);
                    assert(after.take(i) =~= before.take(i));
                } else {
                    assert(after.take(i) =~= before);
                }
            }
        }
        PipelineRun {
            steps: own_steps,
            execution,
            current: next,
            total_ms: total_ms.saturating_add(elapsed),
            underway: None,
        }
    }

    /// Runs the next step, which began at `start` and ended at `end`, and
    /// records it. Where no step is left to run, the run stays as it is.
    pub fn advance(self, start: Timestamp, end: Timestamp) -> (r: PipelineRun)
        ensures
            r.steps() == self.steps(),
            r.input() == self.input(),
            r.id() == self.id(),
            r.pipeline_id() == self.pipeline_id(),
            r.started_at() == self.started_at(),
            r.underway() is None,
            r.results() == if is_finished(self.steps(), self.results()) {
                self.results()
            } else {
                self.results().push(
                    step_record(
                        self.steps()[self.results().len() as int],
                        data_after(self.input(), self.results()),
                        start,
                        end,
                    ),
                )
            },
            is_trace(r.steps(), r.input(), r.results()),
    {
        self.perform(start).complete(end)
    }

    /// Ends the run at `completed_at` and hands out its record: failed
    /// where a step failed, completed where every step ran, and cancelled
    /// where steps were left to run. A step whose end was not recorded
    /// leaves no record.
    pub fn finish(self, completed_at: Timestamp) -> (r: PipelineExecution)
        ensures
            is_run(r@, self.steps(), self.input()),
            r@.step_results == self.results(),
            r@.id == self.id(),
            r@.pipeline_id == self.pipeline_id(),
            r@.started_at == self.started_at(),
            r@.completed_at == Some(completed_at),
    {
        proof {
            use_type_invariant(&self);
        }
        let done = self.execution.step_results.len();
        let failed = done > 0 && self.execution.step_results[done - 1].status
            == PipelineStatus::Failed;
        let status = if failed {
            PipelineStatus::Failed
        } else if done >= self.steps.len() {
            PipelineStatus::Completed
        } else {
            PipelineStatus::Cancelled
        };
        let error_message: Option<String> = if failed {
            clone_text(&self.execution.step_results[done - 1].error_message)
        } else {
            None
        };
        let mut execution = self.execution;
        execution.status = status;
        execution.output = self.current;
        execution.completed_at = Some(completed_at);
        execution.error_message = error_message;
        execution.execution_time_ms = Some(self.total_ms);
        execution
    }
}

} // verus!
