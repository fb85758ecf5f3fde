//! The registry of pipelines and of their runs, and the executor.
//!
//! The registry keeps pipelines and runs in the order in which their
//! identifiers first came in. Storing under an identifier that is already
//! there replaces what was stored under it.

use crate::clock::{fresh_id, now};
use crate::json::Json;
use crate::model::{
    text_view, ExecutionRecord, Pipeline, PipelineExecution, PipelineSpec, PipelineStatus,
    StepSpec, Timestamp,
};
use crate::run::{is_finished, is_run, is_trace, PipelineRun};
use crate::samples::{
    data_transformer, sample_data_transformer, sample_text_processor, text_processor,
};
use crate::text::{followed_by, decimal_digits, decimal_text};
use vstd::prelude::*;

verus! {

/// Why the registry or the executor refuses a request.
#[derive(Debug, PartialEq, Eq)]
pub enum PipelineError {
    /// The pipeline is malformed; the text says how.
    Validation(String),
    /// No pipeline bears the identifier.
    NotFound,
    /// The pipeline is not ready to run.
    NotReady,
}

/// The mathematical reading of a refusal.
pub enum Refusal {
    Validation(Seq<char>),
    NotFound,
    NotReady,
}

impl View for PipelineError {
    type V = Refusal;

    open spec fn view(&self) -> Refusal {
        match self {
            PipelineError::Validation(message) => Refusal::Validation(message@),
            PipelineError::NotFound => Refusal::NotFound,
            PipelineError::NotReady => Refusal::NotReady,
        }
    }
}

/// The text of a refusal.
pub open spec fn refusal_text(refusal: Refusal) -> Seq<char> {
    match refusal {
        Refusal::Validation(message) => message,
        Refusal::NotFound => "Pipeline not found"@,
        Refusal::NotReady => "Pipeline is not ready for execution"@,
    }
}

impl PipelineError {
    /// The text of the refusal.
    pub fn message(&self) -> (r: String)
        ensures
            r@ == refusal_text(self@),
    {
        match self {
            PipelineError::Validation(message) => message.clone(),
            PipelineError::NotFound => "Pipeline not found".to_owned(),
            PipelineError::NotReady => "Pipeline is not ready for execution".to_owned(),
        }
    }
}

/// What is wrong with the first malformed step from position `from` on, if
/// any is: an empty name, or a time limit of zero. Steps count from one.
pub open spec fn step_fault(steps: Seq<StepSpec>, from: int) -> Option<Seq<char>>
    decreases steps.len() - from,
{
    if from < 0 || from >= steps.len() {
        None
    } else if steps[from].name.len() == 0 {
        Some("Step "@ + decimal_digits((from + 1) as nat) + " cannot have empty name"@)
    } else if steps[from].timeout_seconds == 0 {
        Some("Step "@ + decimal_digits((from + 1) as nat) + " must have a positive timeout"@)
    } else {
        step_fault(steps, from + 1)
    }
}

/// What is wrong with a pipeline, if anything is: an empty name, no step,
/// or a malformed step.
pub open spec fn pipeline_fault(pipeline: PipelineSpec) -> Option<Seq<char>> {
    if pipeline.name.len() == 0 {
        Some("Pipeline name cannot be empty"@)
    } else if pipeline.steps.len() == 0 {
        Some("Pipeline must have at least one step"@)
    } else {
        step_fault(pipeline.steps, 0)
    }
}

/// What is wrong with a pipeline, if anything is.
pub fn validate_pipeline(pipeline: &Pipeline) -> (r: Option<String>)
    ensures
        text_view(r) == pipeline_fault(pipeline@),
{
    if pipeline.name.as_str().is_empty() {
        return Some("Pipeline name cannot be empty".to_owned());
    }
    if pipeline.steps.len() == 0 {
        return Some("Pipeline must have at least one step".to_owned());
    }
    let mut i: usize = 0;
    while i < pipeline.steps.len()
        invariant
            0 <= i <= pipeline.steps.len(),
            pipeline_fault(pipeline@) == step_fault(pipeline@.steps, i as int),
        decreases pipeline.steps.len() - i,
    {
        let step = &pipeline.steps[i];
        assert(pipeline@.steps[i as int] == step@);
        if step.name.as_str().is_empty() {
            let number = decimal_text((i + 1) as u64);
            let opened = followed_by("Step ", number.as_str());
            return Some(followed_by(opened.as_str(), " cannot have empty name"));
        }
        if step.timeout_seconds == 0 {
            let number = decimal_text((i + 1) as u64);
            let opened = followed_by("Step ", number.as_str());
            return Some(followed_by(opened.as_str(), " must have a positive timeout"));
        }
        i = i + 1;
    }
    None
}

/// The first position at which `id` stands among `ids`.
pub open spec fn first_index(ids: Seq<Seq<char>>, id: Seq<char>) -> Option<int>
    decreases ids.len(),
{
    if ids.len() == 0 {
        None
    } else {
        match first_index(ids.drop_last(), id) {
            Some(i) => Some(i),
            None => if ids.last() == id {
                Some(ids.len() - 1)
            } else {
                None
            },
        }
    }
}

/// The identifiers of pipelines, in order.
pub open spec fn pipeline_ids(all: Seq<PipelineSpec>) -> Seq<Seq<char>> {
    Seq::new(all.len(), |i: int| all[i].id)
}

/// The identifiers of runs, in order.
pub open spec fn execution_ids(all: Seq<ExecutionRecord>) -> Seq<Seq<char>> {
    Seq::new(all.len(), |i: int| all[i].id)
}

/// Whether no identifier stands twice.
pub open spec fn distinct(ids: Seq<Seq<char>>) -> bool {
    forall|i: int, j: int| 0 <= i < j < ids.len() ==> ids[i] != ids[j]
}

/// The pipeline stored under `id`.
pub open spec fn pipeline_at(all: Seq<PipelineSpec>, id: Seq<char>) -> Option<PipelineSpec> {
    match first_index(pipeline_ids(all), id) {
        Some(i) => Some(all[i]),
        None => None,
    }
}

/// The run stored under `id`.
pub open spec fn execution_at(all: Seq<ExecutionRecord>, id: Seq<char>) -> Option<
    ExecutionRecord,
> {
    match first_index(execution_ids(all), id) {
        Some(i) => Some(all[i]),
        None => None,
    }
}

/// The pipelines after `pipeline` is stored: in the place of the one that
/// bore its identifier, or at the end.
pub open spec fn with_pipeline(all: Seq<PipelineSpec>, pipeline: PipelineSpec) -> Seq<
    PipelineSpec,
> {
    match first_index(pipeline_ids(all), pipeline.id) {
        Some(i) => all.update(i, pipeline),
        None => all.push(pipeline),
    }
}

/// The runs after `execution` is stored: in the place of the one that bore
/// its identifier, or at the end.
pub open spec fn with_execution(all: Seq<ExecutionRecord>, execution: ExecutionRecord) -> Seq<
    ExecutionRecord,
> {
    match first_index(execution_ids(all), execution.id) {
        Some(i) => all.update(i, execution),
        None => all.push(execution),
    }
}

/// The pipelines after the one under `id` is taken out.
pub open spec fn without_pipeline(all: Seq<PipelineSpec>, id: Seq<char>) -> Seq<PipelineSpec> {
    match first_index(pipeline_ids(all), id) {
        Some(i) => all.remove(i),
        None => all,
    }
}

/// The first `n` runs that belong to `pipeline_id`, in order; all of the
/// first `n` where no pipeline is named.
pub open spec fn runs_of(all: Seq<ExecutionRecord>, n: nat, pipeline_id: Option<Seq<char>>)
    -> Seq<ExecutionRecord>
    decreases n,
{
    if n == 0 || n > all.len() {
        Seq::empty()
    } else {
        let before = runs_of(all, (n - 1) as nat, pipeline_id);
        match pipeline_id {
            Some(id) => if all[n - 1].pipeline_id == id {
                before.push(all[n - 1])
            } else {
                before
            },
            None => before.push(all[n - 1]),
        }
    }
}

/// The number of runs among the first `n` that ended as `status`.
pub open spec fn count_ended(all: Seq<ExecutionRecord>, n: nat, status: PipelineStatus) -> nat
    decreases n,
{
    if n == 0 || n > all.len() {
        0
    } else if all[n - 1].status == status {
        count_ended(all, (n - 1) as nat, status) + 1
    } else {
        count_ended(all, (n - 1) as nat, status)
    }
}

/// The first index of an identifier is where it first stands.
pub proof fn lemma_first_index(ids: Seq<Seq<char>>, id: Seq<char>)
    ensures
        match first_index(ids, id) {
            Some(i) => 0 <= i < ids.len() && ids[i] == id && forall|j: int|
                0 <= j < i ==> #[trigger] ids[j] != id,
            None => forall|j: int| 0 <= j < ids.len() ==> #[trigger] ids[j] != id,
        },
    decreases ids.len(),
{
    if ids.len() > 0 {
        let front = ids.drop_last();
        lemma_first_index(front, id);
        assert forall|j: int| 0 <= j < front.len() implies front[j] == ids[j] by {}
        match first_index(front, id) {
            Some(i) => {
                assert(ids[i] == front[i]);
                assert forall|j: int| 0 <= j < i implies #[trigger] ids[j] != id by {
                    assert(front[j] != id);
                }
            },
            None => {
                assert forall|j: int| 0 <= j < front.len() implies #[trigger] ids[j] != id by {
                    assert(front[j] != id);
                }
            },
        }
    }
}

/// Distinct identifiers stay distinct when one that is not among them
/// joins them.
proof fn lemma_distinct_push(ids: Seq<Seq<char>>, id: Seq<char>)
    requires
        distinct(ids),
        first_index(ids, id) is None,
    ensures
        distinct(ids.push(id)),
{
    lemma_first_index(ids, id);
    let after = ids.push(id);
    assert forall|i: int, j: int| 0 <= i < j < after.len() implies after[i] != after[j] by {
        if j < ids.len() {
            assert(ids[i] != ids[j]);
        } else {
            assert(ids[i] != id);
        }
    }
}

/// Distinct identifiers stay distinct when one of them leaves.
proof fn lemma_distinct_remove(ids: Seq<Seq<char>>, k: int)
    requires
        distinct(ids),
        0 <= k < ids.len(),
    ensures
        distinct(ids.remove(k)),
{
    let after = ids.remove(k);
    assert forall|i: int, j: int| 0 <= i < j < after.len() implies after[i] != after[j] by {
        let a = if i < k {
            i
        } else {
            i + 1
        };
        let b = if j < k {
            j
        } else {
            j + 1
        };
        assert(after[i] == ids[a]);
        assert(after[j] == ids[b]);
        assert(ids[a] != ids[b]);
    }
}

proof fn lemma_count_bound(all: Seq<ExecutionRecord>, n: nat, status: PipelineStatus)
    ensures
        count_ended(all, n, status) <= n,
    decreases n,
{
    if n > 0 && n <= all.len() {
        lemma_count_bound(all, (n - 1) as nat, status);
    }
}

/// How many runs the registry holds, and how they ended.
#[derive(Clone, Copy, Debug, PartialEq, Eq)]
pub struct ExecutionStatistics {
    pub total_executions: usize,
    pub successful: usize,
    pub failed: usize,
}

/// The registry of pipelines and runs, and the executor that runs the
/// pipelines.
pub struct PipelineExecutor {
    pipelines: Vec<Pipeline>,
    executions: Vec<PipelineExecution>,
}

impl PipelineExecutor {
    /// The stored pipelines, in the registry's order.
    pub closed spec fn pipelines(&self) -> Seq<PipelineSpec> {
        self.pipelines.deep_view()
    }

    /// The stored runs, in the registry's order.
    pub closed spec fn executions(&self) -> Seq<ExecutionRecord> {
        self.executions.deep_view()
    }

    /// No identifier is stored twice, neither among the pipelines nor
    /// among the runs.
    #[verifier::type_invariant]
    closed spec fn no_identifier_twice(&self) -> bool {
        &&& distinct(pipeline_ids(self.pipelines()))
        &&& distinct(execution_ids(self.executions()))
    }

    /// A registry that holds nothing.
    pub fn new() -> (r: PipelineExecutor)
        ensures
            r.pipelines() == Seq::<PipelineSpec>::empty(),
            r.executions() == Seq::<ExecutionRecord>::empty(),
    {
        let pipelines: Vec<Pipeline> = Vec::new();
        let executions: Vec<PipelineExecution> = Vec::new();
        assert(pipelines.deep_view() =~= Seq::<PipelineSpec>::empty());
        assert(executions.deep_view() =~= Seq::<ExecutionRecord>::empty());
        PipelineExecutor { pipelines, executions }
    }

    /// Takes everything out of the registry, which then holds nothing.
    fn take_all(&mut self) -> (r: PipelineExecutor)
        ensures
            r.pipelines() == old(self).pipelines(),
            r.executions() == old(self).executions(),
    {
        let mut taken = PipelineExecutor::new();
        core::mem::swap(self, &mut taken);
        taken
    }

    /// Stores the two sample pipelines, both created at `at`.
    pub fn initialize_sample_pipelines(&mut self, at: Timestamp)
        ensures
            distinct(pipeline_ids(final(self).pipelines())),
            distinct(execution_ids(final(self).executions())),
            final(self).executions() == old(self).executions(),
            final(self).pipelines() == with_pipeline(
                with_pipeline(old(self).pipelines(), text_processor(at)),
                data_transformer(at),
            ),
    {
        self.store_pipeline(sample_text_processor(at));
        self.store_pipeline(sample_data_transformer(at));
    }

    /// Stores the two sample pipelines, both created now.
    pub fn initialize(&mut self)
        ensures
            distinct(pipeline_ids(final(self).pipelines())),
            distinct(execution_ids(final(self).executions())),
            final(self).executions() == old(self).executions(),
            exists|at: Timestamp|
                final(self).pipelines() == with_pipeline(
                    with_pipeline(old(self).pipelines(), #[trigger] text_processor(at)),
                    data_transformer(at),
                ),
    {
        let at = now();
        self.initialize_sample_pipelines(at);
    }

    /// The position of the pipeline stored under `id`.
    fn find_pipeline(&self, id: &str) -> (r: Option<usize>)
        ensures
            match r {
                Some(i) => first_index(pipeline_ids(self.pipelines()), id@) == Some(i as int) && i
                    < self.pipelines.len(),
                None => first_index(pipeline_ids(self.pipelines()), id@) is None,
            },
    {
        let wanted = id.to_owned();
        let ghost ids = pipeline_ids(self.pipelines());
        proof {
            lemma_first_index(ids, id@);
        }
        let mut i: usize = 0;
        while i < self.pipelines.len()
            invariant
                0 <= i <= self.pipelines.len(),
                wanted@ == id@,
                ids == pipeline_ids(self.pipelines()),
                forall|j: int| 0 <= j < i ==> #[trigger] ids[j] != id@,
            decreases self.pipelines.len() - i,
        {
            assert(ids[i as int] == self.pipelines@[i as int]@.id);
            if self.pipelines[i].id == wanted {
                proof {
                    lemma_first_index(ids, id@);
                }
                return Some(i);
            }
            i = i + 1;
        }
        None
    }

    /// The position of the run stored under `id`.
    fn find_execution(&self, id: &str) -> (r: Option<usize>)
        ensures
            match r {
                Some(i) => first_index(execution_ids(self.executions()), id@) == Some(i as int)
                    && i < self.executions.len(),
                None => first_index(execution_ids(self.executions()), id@) is None,
            },
    {
        let wanted = id.to_owned();
        let ghost ids = execution_ids(self.executions());
        proof {
            lemma_first_index(ids, id@);
        }
        let mut i: usize = 0;
        while i < self.executions.len()
            invariant
                0 <= i <= self.executions.len(),
                wanted@ == id@,
                ids == execution_ids(self.executions()),
                forall|j: int| 0 <= j < i ==> #[trigger] ids[j] != id@,
            decreases self.executions.len() - i,
        {
            assert(ids[i as int] == self.executions@[i as int]@.id);
            if self.executions[i].id == wanted {
                proof {
                    lemma_first_index(ids, id@);
                }
                return Some(i);
            }
            i = i + 1;
        }
        None
    }

    /// Stores a pipeline under its identifier.
    fn store_pipeline(&mut self, pipeline: Pipeline) -> (at: usize)
        ensures
            final(self).pipelines() == with_pipeline(old(self).pipelines(), pipeline@),
            final(self).executions() == old(self).executions(),
            at < final(self).pipelines.len(),
            final(self).pipelines[at as int]@ == pipeline@,
            distinct(pipeline_ids(final(self).pipelines())),
            distinct(execution_ids(final(self).executions())),
    {
        let taken = self.take_all();
        proof {
            use_type_invariant(&taken);
        }
        let ghost before = taken.pipelines();
        let ghost value = pipeline@;
        let found = taken.find_pipeline(pipeline.id.as_str());
        let PipelineExecutor { pipelines: mut pipelines, executions } = taken;
        let at: usize = match found {
            Some(i) => {
                pipelines.remove(i);
                pipelines.insert(i, pipeline);
                assert(pipelines.deep_view() =~= before.update(i as int, value));
                proof {
                    lemma_first_index(pipeline_ids(before), value.id);
                    assert(pipeline_ids(before.update(i as int, value)) =~= pipeline_ids(before));
                }
                i
            },
            None => {
                pipelines.push(pipeline);
                assert(pipelines.deep_view() =~= before.push(value));
                proof {
                    lemma_distinct_push(pipeline_ids(before), value.id);
                    assert(pipeline_ids(before.push(value)) =~= pipeline_ids(before).push(
                        value.id,
                    ));
                }
                pipelines.len() - 1
            },
        };
        *self = PipelineExecutor { pipelines, executions };
        at
    }

    /// Stores the record of a run under its identifier.
    pub fn record_execution(&mut self, execution: PipelineExecution) -> (r: &PipelineExecution)
        ensures
            final(self).executions() == with_execution(old(self).executions(), execution@),
            final(self).pipelines() == old(self).pipelines(),
            r@ == execution@,
            distinct(pipeline_ids(final(self).pipelines())),
            distinct(execution_ids(final(self).executions())),
    {
        let taken = self.take_all();
        proof {
            use_type_invariant(&taken);
        }
        let ghost before = taken.executions();
        let ghost value = execution@;
        let found = taken.find_execution(execution.id.as_str());
        let PipelineExecutor { pipelines, executions: mut executions } = taken;
        let at: usize = match found {
            Some(i) => {
                executions.remove(i);
                executions.insert(i, execution);
                assert(executions.deep_view() =~= before.update(i as int, value));
                proof {
                    lemma_first_index(execution_ids(before), value.id);
                    assert(execution_ids(before.update(i as int, value)) =~= execution_ids(
                        before,
                    ));
                }
                i
            },
            None => {
                executions.push(execution);
                assert(executions.deep_view() =~= before.push(value));
                proof {
                    lemma_distinct_push(execution_ids(before), value.id);
                    assert(execution_ids(before.push(value)) =~= execution_ids(before).push(
                        value.id,
                    ));
                }
                executions.len() - 1
            },
        };
        *self = PipelineExecutor { pipelines, executions };
        &self.executions[at]
    }

    /// Stores a new pipeline, unless it is malformed.
    pub fn create_pipeline(&mut self, pipeline: Pipeline) -> (r: Result<&Pipeline, PipelineError>)
        ensures
            distinct(pipeline_ids(final(self).pipelines())),
            distinct(execution_ids(final(self).executions())),
            final(self).executions() == old(self).executions(),
            match pipeline_fault(pipeline@) {
                Some(message) => r is Err && r->Err_0@ == Refusal::Validation(message)
                    && final(self).pipelines() == old(self).pipelines(),
                None => r is Ok && r->Ok_0@ == pipeline@ && final(self).pipelines()
                    == with_pipeline(old(self).pipelines(), pipeline@),
            },
    {
        proof {
            use_type_invariant(&*self);
        }
        match validate_pipeline(&pipeline) {
            Some(message) => Err(PipelineError::Validation(message)),
            None => {
                let at = self.store_pipeline(pipeline);
                Ok(&self.pipelines[at])
            },
        }
    }

    /// The stored pipelines, in the registry's order.
    pub fn list_pipelines(&self) -> (r: Vec<&Pipeline>)
        ensures
            distinct(pipeline_ids(self.pipelines())),
            r@.len() == self.pipelines().len(),
            forall|i: int| 0 <= i < r@.len() ==> r@[i]@ == self.pipelines()[i],
    {
        proof {
            use_type_invariant(self);
        }
        let mut out: Vec<&Pipeline> = Vec::new();
        let mut i: usize = 0;
        while i < self.pipelines.len()
            invariant
                0 <= i <= self.pipelines.len(),
                out@.len() == i,
                forall|j: int| 0 <= j < i ==> out@[j]@ == self.pipelines()[j],
            decreases self.pipelines.len() - i,
        {
            out.push(&self.pipelines[i]);
            i = i + 1;
        }
        out
    }

    /// The pipeline stored under `pipeline_id`.
    pub fn get_pipeline(&self, pipeline_id: &str) -> (r: Option<&Pipeline>)
        ensures
            match r {
                Some(p) => pipeline_at(self.pipelines(), pipeline_id@) == Some(p@),
                None => pipeline_at(self.pipelines(), pipeline_id@) is None,
            },
    {
        match self.find_pipeline(pipeline_id) {
            Some(i) => Some(&self.pipelines[i]),
            None => None,
        }
    }

    /// Replaces the pipeline stored under `pipeline_id` by `pipeline`, which
    /// takes over the identifier and is marked as updated at `updated_at`.
    pub fn update_pipeline_at(
        &mut self,
        pipeline_id: &str,
        pipeline: Pipeline,
        updated_at: Timestamp,
    ) -> (r: Result<&Pipeline, PipelineError>)
        ensures
            distinct(pipeline_ids(final(self).pipelines())),
            distinct(execution_ids(final(self).executions())),
            final(self).executions() == old(self).executions(),
            match update_verdict(old(self).pipelines(), pipeline_id@, pipeline@, updated_at) {
                Ok(stored) => r is Ok && r->Ok_0@ == stored && final(self).pipelines()
                    == with_pipeline(old(self).pipelines(), stored),
                Err(refusal) => r is Err && r->Err_0@ == refusal && final(self).pipelines()
                    == old(self).pipelines(),
            },
    {
        proof {
            use_type_invariant(&*self);
        }
        if self.find_pipeline(pipeline_id).is_none() {
            return Err(PipelineError::NotFound);
        }
        let mut pipeline = pipeline;
        pipeline.id = pipeline_id.to_owned();
        pipeline.updated_at = updated_at;
        match validate_pipeline(&pipeline) {
            Some(message) => Err(PipelineError::Validation(message)),
            None => {
                let at = self.store_pipeline(pipeline);
                Ok(&self.pipelines[at])
            },
        }
    }

    /// Replaces the pipeline stored under `pipeline_id` by `pipeline`, which
    /// takes over the identifier and is marked as updated now.
    pub fn update_pipeline(&mut self, pipeline_id: &str, pipeline: Pipeline) -> (r: Result<
        &Pipeline,
        PipelineError,
    >)
        ensures
            distinct(pipeline_ids(final(self).pipelines())),
            distinct(execution_ids(final(self).executions())),
            final(self).executions() == old(self).executions(),
            exists|updated_at: Timestamp|
                match #[trigger] update_verdict(
                    old(self).pipelines(),
                    pipeline_id@,
                    pipeline@,
                    updated_at,
                ) {
                    Ok(stored) => r is Ok && r->Ok_0@ == stored && final(self).pipelines()
                        == with_pipeline(old(self).pipelines(), stored),
                    Err(refusal) => r is Err && r->Err_0@ == refusal && final(self).pipelines()
                        == old(self).pipelines(),
                },
    {
        let updated_at = now();
        self.update_pipeline_at(pipeline_id, pipeline, updated_at)
    }

    /// Takes the pipeline stored under `pipeline_id` out of the registry.
    /// The runs of that pipeline stay.
    pub fn delete_pipeline(&mut self, pipeline_id: &str) -> (r: Option<Pipeline>)
        ensures
            distinct(pipeline_ids(final(self).pipelines())),
            distinct(execution_ids(final(self).executions())),
            final(self).executions() == old(self).executions(),
            final(self).pipelines() == without_pipeline(old(self).pipelines(), pipeline_id@),
            match r {
                Some(p) => pipeline_at(old(self).pipelines(), pipeline_id@) == Some(p@),
                None => pipeline_at(old(self).pipelines(), pipeline_id@) is None,
            },
    {
        let all = self.take_all();
        proof {
            use_type_invariant(&all);
        }
        let ghost before = all.pipelines();
        let found = all.find_pipeline(pipeline_id);
        let PipelineExecutor { pipelines: mut pipelines, executions } = all;
        let taken: Option<Pipeline> = match found {
            Some(i) => {
                let taken = pipelines.remove(i);
                assert(pipelines.deep_view() =~= before.remove(i as int));
                proof {
                    lemma_distinct_remove(pipeline_ids(before), i as int);
                    assert(pipeline_ids(before.remove(i as int)) =~= pipeline_ids(before).remove(
                        i as int,
                    ));
                }
                Some(taken)
            },
            None => None,
        };
        *self = PipelineExecutor { pipelines, executions };
        taken
    }

    /// The run stored under `execution_id`.
    pub fn get_execution(&self, execution_id: &str) -> (r: Option<&PipelineExecution>)
        ensures
            match r {
                Some(e) => execution_at(self.executions(), execution_id@) == Some(e@),
                None => execution_at(self.executions(), execution_id@) is None,
            },
    {
        match self.find_execution(execution_id) {
            Some(i) => Some(&self.executions[i]),
            None => None,
        }
    }

    /// The stored runs of one pipeline, or all stored runs where none is
    /// named, in the registry's order.
    pub fn list_executions(&self, pipeline_id: Option<String>) -> (r: Vec<&PipelineExecution>)
        ensures
            distinct(execution_ids(self.executions())),
            r@.len() == runs_of(
                self.executions(),
                self.executions().len(),
                text_view(pipeline_id),
            ).len(),
            forall|i: int|
                0 <= i < r@.len() ==> r@[i]@ == runs_of(
                    self.executions(),
                    self.executions().len(),
                    text_view(pipeline_id),
                )[i],
    {
        proof {
            use_type_invariant(self);
        }
        let ghost wanted = text_view(pipeline_id);
        let ghost all = self.executions();
        let mut out: Vec<&PipelineExecution> = Vec::new();
        let mut i: usize = 0;
        while i < self.executions.len()
            invariant
                0 <= i <= self.executions.len(),
                all == self.executions(),
                wanted == text_view(pipeline_id),
                out@.len() == runs_of(all, i as nat, wanted).len(),
                forall|j: int| 0 <= j < out@.len() ==> out@[j]@ == runs_of(all, i as nat, wanted)[j],
            decreases self.executions.len() - i,
        {
            let execution = &self.executions[i];
            assert(all[i as int] == execution@);
            let belongs = match &pipeline_id {
                Some(id) => execution.pipeline_id == *id,
                None => true,
            };
            if belongs {
                out.push(execution);
            }
            i = i + 1;
        }
        out
    }

    /// How many runs the registry holds, how many of them completed, and
    /// how many failed.
    pub fn get_execution_statistics(&self) -> (r: ExecutionStatistics)
        ensures
            r.total_executions == self.executions().len(),
            r.successful == count_ended(
                self.executions(),
                self.executions().len(),
                PipelineStatus::Completed,
            ),
            r.failed == count_ended(
                self.executions(),
                self.executions().len(),
                PipelineStatus::Failed,
            ),
    {
        let ghost all = self.executions();
        let mut successful: usize = 0;
        let mut failed: usize = 0;
        let mut i: usize = 0;
        while i < self.executions.len()
            invariant
                0 <= i <= self.executions.len(),
                all == self.executions(),
                successful == count_ended(all, i as nat, PipelineStatus::Completed),
                failed == count_ended(all, i as nat, PipelineStatus::Failed),
            decreases self.executions.len() - i,
        {
            proof {
                lemma_count_bound(all, i as nat, PipelineStatus::Completed);
                lemma_count_bound(all, i as nat, PipelineStatus::Failed);
            }
            let status = self.executions[i].status;
            assert(all[i as int].status == status);
            if status == PipelineStatus::Completed {
                successful = successful + 1;
            }
            if status == PipelineStatus::Failed {
                failed = failed + 1;
            }
            i = i + 1;
        }
        ExecutionStatistics { total_executions: self.executions.len(), successful, failed }
    }

    /// Begins a run of the pipeline stored under `pipeline_id`, unless there
    /// is none or it is not ready. The run takes the pipeline's steps as
    /// they are now.
    pub fn begin_execution(
        &self,
        pipeline_id: &str,
        input: Json,
        execution_id: String,
        started_at: Timestamp,
    ) -> (r: Result<PipelineRun, PipelineError>)
        ensures
            match pipeline_at(self.pipelines(), pipeline_id@) {
                None => r is Err && r->Err_0@ == Refusal::NotFound,
                Some(pipeline) => if pipeline.status != PipelineStatus::Ready {
                    r is Err && r->Err_0@ == Refusal::NotReady
                } else {
                    &&& r is Ok
                    &&& r->Ok_0.steps() == pipeline.steps
                    &&& r->Ok_0.results().len() == 0
                    &&& r->Ok_0.input() == input@
                    &&& r->Ok_0.id() == execution_id@
                    &&& r->Ok_0.pipeline_id() == pipeline.id
                    &&& r->Ok_0.started_at() == started_at
                    &&& r->Ok_0.underway() is None
                },
            },
    {
        match self.get_pipeline(pipeline_id) {
            None => Err(PipelineError::NotFound),
            Some(pipeline) => if pipeline.status != PipelineStatus::Ready {
                Err(PipelineError::NotReady)
            } else {
                Ok(PipelineRun::begin(pipeline, execution_id, input, started_at))
            },
        }
    }

    /// Runs the pipeline stored under `pipeline_id` on `input`, step by
    /// step to its end, and stores the record of the run.
    ///
    /// Nothing is stored where no pipeline bears the identifier or the
    /// pipeline is not ready. The identifier of the run and its clock
    /// readings are the system's: the clock is read before the operator of
    /// a step works and again after it.
    pub fn execute_pipeline(&mut self, pipeline_id: &str, input: Json) -> (r: Result<
        &PipelineExecution,
        PipelineError,
    >)
        ensures
            distinct(pipeline_ids(final(self).pipelines())),
            distinct(execution_ids(final(self).executions())),
            final(self).pipelines() == old(self).pipelines(),
            match pipeline_at(old(self).pipelines(), pipeline_id@) {
                None => r is Err && r->Err_0@ == Refusal::NotFound && final(self).executions()
                    == old(self).executions(),
                Some(pipeline) => if pipeline.status != PipelineStatus::Ready {
                    r is Err && r->Err_0@ == Refusal::NotReady && final(self).executions()
                        == old(self).executions()
                } else {
                    &&& r is Ok
                    &&& is_run(r->Ok_0@, pipeline.steps, input@)
                    &&& is_finished(pipeline.steps, r->Ok_0@.step_results)
                    &&& r->Ok_0@.pipeline_id == pipeline.id
                    &&& final(self).executions() == with_execution(
                        old(self).executions(),
                        r->Ok_0@,
                    )
                },
            },
    {
        proof {
            use_type_invariant(&*self);
        }
        let execution_id = fresh_id();
        let started_at = now();
        let mut run = match self.begin_execution(pipeline_id, input, execution_id, started_at) {
            Ok(run) => run,
            Err(refusal) => {
                return Err(refusal);
            },
        };
        let ghost steps = run.steps();
        let ghost given = run.input();
        let ghost owner = run.pipeline_id();
        while !run.finished()
            invariant
                run.steps() == steps,
                run.input() == given,
                run.pipeline_id() == owner,
                run.underway() is None,
                is_trace(run.steps(), run.input(), run.results()),
            decreases run.steps().len() - run.results().len(),
        {
            let start = now();
            run = run.perform(start);
            let end = now();
            run = run.complete(end);
        }
        let completed_at = now();
        let execution = run.finish(completed_at);
        Ok(self.record_execution(execution))
    }
}

/// What becomes of a request to replace the pipeline stored under `id` by
/// `pipeline` at the time `updated_at`: the pipeline as it is then stored,
/// or the refusal.
pub open spec fn update_verdict(
    all: Seq<PipelineSpec>,
    id: Seq<char>,
    pipeline: PipelineSpec,
    updated_at: Timestamp,
) -> Result<PipelineSpec, Refusal> {
    let renamed = PipelineSpec { id, updated_at, ..pipeline };
    if pipeline_at(all, id) is None {
        Err(Refusal::NotFound)
    } else {
        match pipeline_fault(renamed) {
            Some(message) => Err(Refusal::Validation(message)),
            None => Ok(renamed),
        }
    }
}

} // verus!
