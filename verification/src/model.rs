//! Pipelines, their steps, and the records of their runs.

use crate::json::{members_view, Json, JsonValue, Member};
use vstd::prelude::*;

verus! {

/// A point in time: whole seconds since the Unix epoch, and the
/// nanoseconds into that second.
#[derive(Clone, Copy, Debug, PartialEq, Eq)]
pub struct Timestamp {
    pub seconds: i64,
    pub nanos: u32,
}

/// The whole milliseconds from `start` to `end`: nothing where `end` is not
/// later, and no more than 64 bits hold.
pub open spec fn elapsed_millis(start: Timestamp, end: Timestamp) -> int {
    let nanos = (end.seconds - start.seconds) * 1_000_000_000 + (end.nanos - start.nanos);
    if nanos <= 0 {
        0
    } else if nanos / 1_000_000 > u64::MAX {
        u64::MAX as int
    } else {
        nanos / 1_000_000
    }
}

impl Timestamp {
    /// The whole milliseconds from `self` to `end`.
    pub fn millis_until(&self, end: &Timestamp) -> (r: u64)
        ensures
            r == elapsed_millis(*self, *end),
    {
        let seconds: i128 = end.seconds as i128 - self.seconds as i128;
        let nanos: i128 = seconds * 1_000_000_000 + (end.nanos as i128 - self.nanos as i128);
        if nanos <= 0 {
            0
        } else {
            let millis: i128 = nanos / 1_000_000;
            if millis > 0xffff_ffff_ffff_ffff {
                0xffff_ffff_ffff_ffff
            } else {
                millis as u64
            }
        }
    }
}

/// The kinds of step.
#[derive(Debug, PartialEq, Eq)]
pub enum StepType {
    TextProcessing,
    DataTransform,
    ApiCall,
    Condition,
    Loop,
    Custom(String),
}

/// The mathematical reading of a kind of step.
pub enum StepKind {
    TextProcessing,
    DataTransform,
    ApiCall,
    Condition,
    Loop,
    Custom(Seq<char>),
}

impl View for StepType {
    type V = StepKind;

    open spec fn view(&self) -> StepKind {
        match self {
            StepType::TextProcessing => StepKind::TextProcessing,
            StepType::DataTransform => StepKind::DataTransform,
            StepType::ApiCall => StepKind::ApiCall,
            StepType::Condition => StepKind::Condition,
            StepType::Loop => StepKind::Loop,
            StepType::Custom(name) => StepKind::Custom(name@),
        }
    }
}

impl Clone for StepType {
    fn clone(&self) -> (r: StepType)
        ensures
            r@ == self@,
    {
        match self {
            StepType::TextProcessing => StepType::TextProcessing,
            StepType::DataTransform => StepType::DataTransform,
            StepType::ApiCall => StepType::ApiCall,
            StepType::Condition => StepType::Condition,
            StepType::Loop => StepType::Loop,
            StepType::Custom(name) => StepType::Custom(name.clone()),
        }
    }
}

/// The states of a pipeline and of a run.
///
/// A pipeline goes from `Draft` to `Ready`; a run starts as `Running` and
/// ends as `Completed`, `Failed` or `Cancelled`.
#[derive(Clone, Copy, Debug, PartialEq, Eq, Structural)]
pub enum PipelineStatus {
    Draft,
    Ready,
    Running,
    Completed,
    Failed,
    Cancelled,
}

/// Whether a run that has reached this state has ended.
pub open spec fn is_terminal(status: PipelineStatus) -> bool {
    status == PipelineStatus::Completed || status == PipelineStatus::Failed || status
        == PipelineStatus::Cancelled
}

impl PipelineStatus {
    /// Whether a run that has reached this state has ended.
    pub fn is_terminal(&self) -> (r: bool)
        ensures
            r == is_terminal(*self),
    {
        match self {
            PipelineStatus::Completed | PipelineStatus::Failed | PipelineStatus::Cancelled => true,
            _ => false,
        }
    }
}

/// One stage of a pipeline.
#[derive(Debug, PartialEq, Eq)]
pub struct PipelineStep {
    pub id: String,
    pub name: String,
    pub step_type: StepType,
    pub config: Json,
    pub timeout_seconds: u64,
}

/// The mathematical reading of a step.
pub struct StepSpec {
    pub id: Seq<char>,
    pub name: Seq<char>,
    pub step_type: StepKind,
    pub config: JsonValue,
    pub timeout_seconds: u64,
}

impl View for PipelineStep {
    type V = StepSpec;

    open spec fn view(&self) -> StepSpec {
        StepSpec {
            id: self.id@,
            name: self.name@,
            step_type: self.step_type@,
            config: self.config@,
            timeout_seconds: self.timeout_seconds,
        }
    }
}

impl DeepView for PipelineStep {
    type V = StepSpec;

    open spec fn deep_view(&self) -> StepSpec {
        self@
    }
}

impl Clone for PipelineStep {
    fn clone(&self) -> (r: PipelineStep)
        ensures
            r@ == self@,
    {
        PipelineStep {
            id: self.id.clone(),
            name: self.name.clone(),
            step_type: self.step_type.clone(),
            config: self.config.clone(),
            timeout_seconds: self.timeout_seconds,
        }
    }
}

/// A named, ordered workflow.
#[derive(Debug, PartialEq, Eq)]
pub struct Pipeline {
    pub id: String,
    pub name: String,
    pub description: String,
    pub steps: Vec<PipelineStep>,
    pub status: PipelineStatus,
    pub created_at: Timestamp,
    pub updated_at: Timestamp,
    pub metadata: Vec<(String, Json)>,
}

/// The mathematical reading of a pipeline.
pub struct PipelineSpec {
    pub id: Seq<char>,
    pub name: Seq<char>,
    pub description: Seq<char>,
    pub steps: Seq<StepSpec>,
    pub status: PipelineStatus,
    pub created_at: Timestamp,
    pub updated_at: Timestamp,
    pub metadata: Seq<Member>,
}

impl View for Pipeline {
    type V = PipelineSpec;

    open spec fn view(&self) -> PipelineSpec {
        PipelineSpec {
            id: self.id@,
            name: self.name@,
            description: self.description@,
            steps: self.steps.deep_view(),
            status: self.status,
            created_at: self.created_at,
            updated_at: self.updated_at,
            metadata: members_view(self.metadata@),
        }
    }
}

impl DeepView for Pipeline {
    type V = PipelineSpec;

    open spec fn deep_view(&self) -> PipelineSpec {
        self@
    }
}

/// A copy of a list of steps.
pub fn clone_steps(steps: &Vec<PipelineStep>) -> (r: Vec<PipelineStep>)
    ensures
        r.deep_view() == steps.deep_view(),
{
    let mut copy: Vec<PipelineStep> = Vec::new();
    let mut i: usize = 0;
    while i < steps.len()
        invariant
            0 <= i <= steps.len(),
            copy@.len() == i,
            forall|j: int| 0 <= j < i ==> copy@[j]@ == steps@[j]@,
        decreases steps.len() - i,
    {
        copy.push(steps[i].clone());
        i = i + 1;
    }
    assert(copy.deep_view() =~= steps.deep_view());
    copy
}

/// A copy of a list of object members.
pub fn clone_members(members: &Vec<(String, Json)>) -> (r: Vec<(String, Json)>)
    ensures
        members_view(r@) == members_view(members@),
{
    let mut copy: Vec<(String, Json)> = Vec::new();
    let mut i: usize = 0;
    while i < members.len()
        invariant
            0 <= i <= members.len(),
            copy@.len() == i,
            forall|j: int|
                0 <= j < i ==> copy@[j].0@ == members@[j].0@ && copy@[j].1@ == members@[j].1@,
        decreases members.len() - i,
    {
        copy.push((members[i].0.clone(), members[i].1.clone()));
        i = i + 1;
    }
    assert(members_view(copy@) =~= members_view(members@));
    copy
}

impl Clone for Pipeline {
    fn clone(&self) -> (r: Pipeline)
        ensures
            r@ == self@,
    {
        Pipeline {
            id: self.id.clone(),
            name: self.name.clone(),
            description: self.description.clone(),
            steps: clone_steps(&self.steps),
            status: self.status,
            created_at: self.created_at,
            updated_at: self.updated_at,
            metadata: clone_members(&self.metadata),
        }
    }
}

/// The outcome of one step within one run.
#[derive(Debug, PartialEq, Eq)]
pub struct StepResult {
    pub step_id: String,
    pub step_name: String,
    pub status: PipelineStatus,
    pub input: Json,
    pub output: Json,
    pub started_at: Timestamp,
    pub completed_at: Option<Timestamp>,
    pub error_message: Option<String>,
    pub execution_time_ms: u64,
}

/// The mathematical reading of a step's outcome.
pub struct StepRecord {
    pub step_id: Seq<char>,
    pub step_name: Seq<char>,
    pub status: PipelineStatus,
    pub input: JsonValue,
    pub output: JsonValue,
    pub started_at: Timestamp,
    pub completed_at: Option<Timestamp>,
    pub error_message: Option<Seq<char>>,
    pub execution_time_ms: u64,
}

/// The reading of an optional text.
pub open spec fn text_view(text: Option<String>) -> Option<Seq<char>> {
    match text {
        Some(s) => Some(s@),
        None => None,
    }
}

/// A copy of an optional text.
pub fn clone_text(text: &Option<String>) -> (r: Option<String>)
    ensures
        text_view(r) == text_view(*text),
{
    match text {
        Some(s) => Some(s.clone()),
        None => None,
    }
}

impl View for StepResult {
    type V = StepRecord;

    open spec fn view(&self) -> StepRecord {
        StepRecord {
            step_id: self.step_id@,
            step_name: self.step_name@,
            status: self.status,
            input: self.input@,
            output: self.output@,
            started_at: self.started_at,
            completed_at: self.completed_at,
            error_message: text_view(self.error_message),
            execution_time_ms: self.execution_time_ms,
        }
    }
}

impl DeepView for StepResult {
    type V = StepRecord;

    open spec fn deep_view(&self) -> StepRecord {
        self@
    }
}

impl Clone for StepResult {
    fn clone(&self) -> (r: StepResult)
        ensures
            r@ == self@,
    {
        StepResult {
            step_id: self.step_id.clone(),
            step_name: self.step_name.clone(),
            status: self.status,
            input: self.input.clone(),
            output: self.output.clone(),
            started_at: self.started_at,
            completed_at: self.completed_at,
            error_message: clone_text(&self.error_message),
            execution_time_ms: self.execution_time_ms,
        }
    }
}

/// One run of a pipeline against one input.
#[derive(Debug, PartialEq, Eq)]
pub struct PipelineExecution {
    pub id: String,
    pub pipeline_id: String,
    pub status: PipelineStatus,
    pub input: Json,
    pub output: Json,
    pub started_at: Timestamp,
    pub completed_at: Option<Timestamp>,
    pub error_message: Option<String>,
    pub step_results: Vec<StepResult>,
    pub execution_time_ms: Option<u64>,
}

/// The mathematical reading of a run.
pub struct ExecutionRecord {
    pub id: Seq<char>,
    pub pipeline_id: Seq<char>,
    pub status: PipelineStatus,
    pub input: JsonValue,
    pub output: JsonValue,
    pub started_at: Timestamp,
    pub completed_at: Option<Timestamp>,
    pub error_message: Option<Seq<char>>,
    pub step_results: Seq<StepRecord>,
    pub execution_time_ms: Option<u64>,
}

impl View for PipelineExecution {
    type V = ExecutionRecord;

    open spec fn view(&self) -> ExecutionRecord {
        ExecutionRecord {
            id: self.id@,
            pipeline_id: self.pipeline_id@,
            status: self.status,
            input: self.input@,
            output: self.output@,
            started_at: self.started_at,
            completed_at: self.completed_at,
            error_message: text_view(self.error_message),
            step_results: self.step_results.deep_view(),
            execution_time_ms: self.execution_time_ms,
        }
    }
}

impl DeepView for PipelineExecution {
    type V = ExecutionRecord;

    open spec fn deep_view(&self) -> ExecutionRecord {
        self@
    }
}

/// A copy of a list of step outcomes.
pub fn clone_results(results: &Vec<StepResult>) -> (r: Vec<StepResult>)
    ensures
        r.deep_view() == results.deep_view(),
{
    let mut copy: Vec<StepResult> = Vec::new();
    let mut i: usize = 0;
    while i < results.len()
        invariant
            0 <= i <= results.len(),
            copy@.len() == i,
            forall|j: int| 0 <= j < i ==> copy@[j]@ == results@[j]@,
        decreases results.len() - i,
    {
        copy.push(results[i].clone());
        i = i + 1;
    }
    assert(copy.deep_view() =~= results.deep_view());
    copy
}

impl Clone for PipelineExecution {
    fn clone(&self) -> (r: PipelineExecution)
        ensures
            r@ == self@,
    {
        PipelineExecution {
            id: self.id.clone(),
            pipeline_id: self.pipeline_id.clone(),
            status: self.status,
            input: self.input.clone(),
            output: self.output.clone(),
            started_at: self.started_at,
            completed_at: self.completed_at,
            error_message: clone_text(&self.error_message),
            step_results: clone_results(&self.step_results),
            execution_time_ms: self.execution_time_ms,
        }
    }
}

} // verus!
