//! What the agent runtime reports to the transcript, as plain values: the
//! events of a turn, the persisted history of a session and the plan.
use vstd::prelude::*;

use crate::cards::{opt_view, AcpPermissionOptionData, ToolConfirmItemData};

verus! {

/// A fenced `chart-json` code block found in an assistant answer: its first
/// character, the character just after it, and the chart specification inside.
#[derive(Debug, Clone)]
pub struct ChartBlock {
    pub start: usize,
    pub end: usize,
    pub code: String,
}

#[verifier::ext_equal]
pub struct BlockView {
    pub start: int,
    pub end: int,
    pub code: Seq<char>,
}

impl View for ChartBlock {
    type V = BlockView;

    open spec fn view(&self) -> BlockView {
        BlockView { start: self.start as int, end: self.end as int, code: self.code@ }
    }
}

pub open spec fn block_views(s: Seq<ChartBlock>) -> Seq<BlockView> {
    s.map_values(|b: ChartBlock| b@)
}

/// How a tool call's input is shown: a one-line summary and formatted JSON.
#[derive(Debug, Clone)]
pub struct ToolInputDisplay {
    pub summary: String,
    pub json: String,
}

#[verifier::ext_equal]
pub struct InputView {
    pub summary: Seq<char>,
    pub json: Seq<char>,
}

impl View for ToolInputDisplay {
    type V = InputView;

    open spec fn view(&self) -> InputView {
        InputView { summary: self.summary@, json: self.json@ }
    }
}

pub open spec fn input_opt_view(o: Option<ToolInputDisplay>) -> Option<InputView> {
    match o {
        Some(d) => Some(d@),
        None => None,
    }
}

/// The result of one tool call, with its data already rendered as text.
#[derive(Debug, Clone)]
pub struct ToolObservation {
    pub call_id: String,
    pub tool_name: String,
    pub success: bool,
    pub summary: String,
    pub data_text: String,
    pub resource_id: Option<String>,
}

#[verifier::ext_equal]
pub struct ObservationView {
    pub call_id: Seq<char>,
    pub tool_name: Seq<char>,
    pub success: bool,
    pub summary: Seq<char>,
    pub data_text: Seq<char>,
    pub resource_id: Option<Seq<char>>,
}

impl View for ToolObservation {
    type V = ObservationView;

    open spec fn view(&self) -> ObservationView {
        ObservationView {
            call_id: self.call_id@,
            tool_name: self.tool_name@,
            success: self.success,
            summary: self.summary@,
            data_text: self.data_text@,
            resource_id: opt_view(self.resource_id),
        }
    }
}

#[derive(Debug, Clone, Copy, PartialEq, Eq, Structural)]
pub enum PlanStatus {
    Draft,
    Running,
    WaitingUser,
    Completed,
    Failed,
}

#[derive(Debug, Clone, Copy, PartialEq, Eq, Structural)]
pub enum StepStatus {
    Pending,
    Running,
    Observed,
    Skipped,
    Failed,
    Completed,
}

pub open spec fn plan_status_text(s: PlanStatus) -> Seq<char> {
    match s {
        PlanStatus::Draft => "draft"@,
        PlanStatus::Running => "running"@,
        PlanStatus::WaitingUser => "waiting_user"@,
        PlanStatus::Completed => "completed"@,
        PlanStatus::Failed => "failed"@,
    }
}

pub open spec fn step_status_text(s: StepStatus) -> Seq<char> {
    match s {
        StepStatus::Pending => "pending"@,
        StepStatus::Running => "running"@,
        StepStatus::Observed => "observed"@,
        StepStatus::Skipped => "skipped"@,
        StepStatus::Failed => "failed"@,
        StepStatus::Completed => "completed"@,
    }
}

impl PlanStatus {
    pub fn as_str(&self) -> (r: &'static str)
        ensures
            r@ == plan_status_text(*self),
    {
        proof {
            reveal_strlit("draft");
            reveal_strlit("running");
            reveal_strlit("waiting_user");
            reveal_strlit("completed");
            reveal_strlit("failed");
        }
        match self {
            PlanStatus::Draft => "draft",
            PlanStatus::Running => "running",
            PlanStatus::WaitingUser => "waiting_user",
            PlanStatus::Completed => "completed",
            PlanStatus::Failed => "failed",
        }
    }
}

impl StepStatus {
    pub fn as_str(&self) -> (r: &'static str)
        ensures
            r@ == step_status_text(*self),
    {
        proof {
            reveal_strlit("pending");
            reveal_strlit("running");
            reveal_strlit("observed");
            reveal_strlit("skipped");
            reveal_strlit("failed");
            reveal_strlit("completed");
        }
        match self {
            StepStatus::Pending => "pending",
            StepStatus::Running => "running",
            StepStatus::Observed => "observed",
            StepStatus::Skipped => "skipped",
            StepStatus::Failed => "failed",
            StepStatus::Completed => "completed",
        }
    }
}

/// One step of an agent plan; `risk` is the risk level's name.
#[derive(Debug, Clone)]
pub struct PlanStep {
    pub title: String,
    pub description: String,
    pub status: StepStatus,
    pub risk: String,
    pub tool_hint: Option<String>,
}

/// The plan an agent works through.
#[derive(Debug, Clone)]
pub struct Plan {
    pub goal: String,
    pub status: PlanStatus,
    pub steps: Vec<PlanStep>,
}

/// A step of the plan panel shown above the input box.
#[derive(Debug, Clone)]
pub struct PlanStepData {
    pub title: String,
    pub description: String,
    pub status: String,
    pub risk: String,
    pub tool: Option<String>,
}

/// The plan panel shown above the input box (not part of the message flow).
#[derive(Debug, Clone)]
pub struct PlanCardData {
    pub goal: String,
    pub status: String,
    pub steps: Vec<PlanStepData>,
}

#[verifier::ext_equal]
pub struct PlanStepView {
    pub title: Seq<char>,
    pub description: Seq<char>,
    pub status: Seq<char>,
    pub risk: Seq<char>,
    pub tool: Option<Seq<char>>,
}

#[verifier::ext_equal]
pub struct PlanView {
    pub goal: Seq<char>,
    pub status: Seq<char>,
    pub steps: Seq<PlanStepView>,
}

impl View for PlanStepData {
    type V = PlanStepView;

    open spec fn view(&self) -> PlanStepView {
        PlanStepView {
            title: self.title@,
            description: self.description@,
            status: self.status@,
            risk: self.risk@,
            tool: opt_view(self.tool),
        }
    }
}

impl View for PlanCardData {
    type V = PlanView;

    open spec fn view(&self) -> PlanView {
        PlanView {
            goal: self.goal@,
            status: self.status@,
            steps: self.steps@.map_values(|s: PlanStepData| s@),
        }
    }
}

/// The panel form of a plan: statuses by name, steps in order.
pub open spec fn plan_card(p: Plan) -> PlanView {
    PlanView {
        goal: p.goal@,
        status: plan_status_text(p.status),
        steps: p.steps@.map_values(
            |s: PlanStep|
                PlanStepView {
                    title: s.title@,
                    description: s.description@,
                    status: step_status_text(s.status),
                    risk: s.risk@,
                    tool: opt_view(s.tool_hint),
                },
        ),
    }
}

fn clone_opt_string(o: &Option<String>) -> (r: Option<String>)
    ensures
        opt_view(r) == opt_view(*o),
{
    match o {
        Some(s) => Some(s.clone()),
        None => None,
    }
}

/// The plan panel for a plan.
pub fn plan_to_card(plan: &Plan) -> (r: PlanCardData)
    ensures
        r@ == plan_card(*plan),
{
    let mut steps: Vec<PlanStepData> = Vec::new();
    let n = plan.steps.len();
    let mut i: usize = 0;
    while i < n
        invariant
            n == plan.steps@.len(),
            i <= n,
            steps@.len() == i,
            forall|j: int|
                0 <= j < i ==> (#[trigger] steps@[j])@ == plan_card(*plan).steps[j],
        decreases n - i,
    {
        let s = &plan.steps[i];
        let status = s.status.as_str();
        steps.push(
            PlanStepData {
                title: s.title.clone(),
                description: s.description.clone(),
                status: status.to_owned(),
                risk: s.risk.clone(),
                tool: clone_opt_string(&s.tool_hint),
            },
        );
        i = i + 1;
    }
    let r = PlanCardData { goal: plan.goal.clone(), status: plan.status.as_str().to_owned(), steps };
    proof {
        assert(r@.steps =~= plan_card(*plan).steps);
    }
    r
}

/// What the agent runtime reports while it works on a turn.  Texts that the
/// user reads in their own language (failure and cancellation notices) come
/// already worded.
#[derive(Debug, Clone)]
pub enum RuntimeEvent {
    TurnStarted { turn_id: String },
    AssistantMessageDelta { turn_id: String, delta: String },
    ReasoningDelta { turn_id: String, delta: String },
    AssistantMessage { turn_id: String, text: String, chart_blocks: Vec<ChartBlock> },
    UserMessage { turn_id: String, text: String },
    Status { turn_id: String, title: String, is_done: bool },
    PlanUpdated { turn_id: String, plan: Plan },
    SubAgentStarted { turn_id: String, subagent_id: String, name: String, task: String },
    SubAgentUpdated { turn_id: String, subagent_id: String, summary: String },
    SubAgentFinished { turn_id: String, subagent_id: String, success: bool, summary: String },
    ToolCallStarted {
        turn_id: String,
        call_id: String,
        tool_name: String,
        input: ToolInputDisplay,
        arguments_json: String,
    },
    ObservationAdded { turn_id: String, observation: ToolObservation },
    ToolCallFinished { turn_id: String, call_id: String, success: bool },
    NeedUserInput {
        turn_id: String,
        question: String,
        pending_tool_call_id: Option<String>,
        tool_name: Option<String>,
        input: Option<ToolInputDisplay>,
        pending_tool_calls: Vec<ToolConfirmItemData>,
    },
    ToolApprovalResolved { turn_id: String, call_id: String, approved: bool },
    TurnFailed { turn_id: String, notice: String },
    TurnCancelled { turn_id: String, notice: String },
    TurnCompleted { turn_id: String },
}

/// One persisted entry of a session's history.
#[derive(Debug, Clone)]
pub enum HistoryItem {
    /// A user message; `images_text` is what is shown instead of `text` when
    /// images were attached.
    User { text: String, image_count: usize, images_text: String },
    Assistant(String),
    AssistantWithReasoning { text: String, reasoning: String },
    System(String),
    /// A summary that replaced older history, already worded for the user.
    ContextSummary(String),
    /// A tool call: its arguments as JSON text, and the string fields of the
    /// arguments object.
    ToolCall {
        call_id: String,
        tool_name: String,
        input: ToolInputDisplay,
        arguments_json: String,
        arguments: ToolArguments,
    },
    Observation(ToolObservation),
}

/// The string-valued fields of a tool call's JSON arguments object, each
/// key with its text.
#[derive(Debug, Clone)]
pub struct ToolArguments {
    pub string_fields: Vec<(String, String)>,
}

impl View for ToolArguments {
    type V = Seq<(Seq<char>, Seq<char>)>;

    open spec fn view(&self) -> Seq<(Seq<char>, Seq<char>)> {
        self.string_fields@.map_values(|e: (String, String)| (e.0@, e.1@))
    }
}

/// The turn an event belongs to.
pub open spec fn event_turn(ev: RuntimeEvent) -> Seq<char> {
    match ev {
        RuntimeEvent::TurnStarted { turn_id } => turn_id@,
        RuntimeEvent::AssistantMessageDelta { turn_id, .. } => turn_id@,
        RuntimeEvent::ReasoningDelta { turn_id, .. } => turn_id@,
        RuntimeEvent::AssistantMessage { turn_id, .. } => turn_id@,
        RuntimeEvent::UserMessage { turn_id, .. } => turn_id@,
        RuntimeEvent::Status { turn_id, .. } => turn_id@,
        RuntimeEvent::PlanUpdated { turn_id, .. } => turn_id@,
        RuntimeEvent::SubAgentStarted { turn_id, .. } => turn_id@,
        RuntimeEvent::SubAgentUpdated { turn_id, .. } => turn_id@,
        RuntimeEvent::SubAgentFinished { turn_id, .. } => turn_id@,
        RuntimeEvent::ToolCallStarted { turn_id, .. } => turn_id@,
        RuntimeEvent::ObservationAdded { turn_id, .. } => turn_id@,
        RuntimeEvent::ToolCallFinished { turn_id, .. } => turn_id@,
        RuntimeEvent::NeedUserInput { turn_id, .. } => turn_id@,
        RuntimeEvent::ToolApprovalResolved { turn_id, .. } => turn_id@,
        RuntimeEvent::TurnFailed { turn_id, .. } => turn_id@,
        RuntimeEvent::TurnCancelled { turn_id, .. } => turn_id@,
        RuntimeEvent::TurnCompleted { turn_id } => turn_id@,
    }
}

impl RuntimeEvent {
    /// The turn this event belongs to.
    pub fn turn_id(&self) -> (r: &String)
        ensures
            r@ == event_turn(*self),
    {
        match self {
            RuntimeEvent::TurnStarted { turn_id } => turn_id,
            RuntimeEvent::AssistantMessageDelta { turn_id, .. } => turn_id,
            RuntimeEvent::ReasoningDelta { turn_id, .. } => turn_id,
            RuntimeEvent::AssistantMessage { turn_id, .. } => turn_id,
            RuntimeEvent::UserMessage { turn_id, .. } => turn_id,
            RuntimeEvent::Status { turn_id, .. } => turn_id,
            RuntimeEvent::PlanUpdated { turn_id, .. } => turn_id,
            RuntimeEvent::SubAgentStarted { turn_id, .. } => turn_id,
            RuntimeEvent::SubAgentUpdated { turn_id, .. } => turn_id,
            RuntimeEvent::SubAgentFinished { turn_id, .. } => turn_id,
            RuntimeEvent::ToolCallStarted { turn_id, .. } => turn_id,
            RuntimeEvent::ObservationAdded { turn_id, .. } => turn_id,
            RuntimeEvent::ToolCallFinished { turn_id, .. } => turn_id,
            RuntimeEvent::NeedUserInput { turn_id, .. } => turn_id,
            RuntimeEvent::ToolApprovalResolved { turn_id, .. } => turn_id,
            RuntimeEvent::TurnFailed { turn_id, .. } => turn_id,
            RuntimeEvent::TurnCancelled { turn_id, .. } => turn_id,
            RuntimeEvent::TurnCompleted { turn_id } => turn_id,
        }
    }

    /// How the panel's bookkeeping classifies the event.
    pub fn kind(&self) -> (r: crate::acp_flow::EventKind)
        ensures
            r == (match *self {
                RuntimeEvent::NeedUserInput { pending_tool_call_id, .. } =>
                    crate::acp_flow::EventKind::NeedUserInput {
                    tool_approval: pending_tool_call_id is Some,
                },
                RuntimeEvent::TurnCompleted { .. } => crate::acp_flow::EventKind::TurnCompleted,
                RuntimeEvent::TurnFailed { .. } => crate::acp_flow::EventKind::TurnFailed,
                RuntimeEvent::TurnCancelled { .. } => crate::acp_flow::EventKind::TurnCancelled,
                _ => crate::acp_flow::EventKind::Other,
            }),
    {
        match self {
            RuntimeEvent::NeedUserInput { pending_tool_call_id, .. } =>
                crate::acp_flow::EventKind::NeedUserInput {
                tool_approval: pending_tool_call_id.is_some(),
            },
            RuntimeEvent::TurnCompleted { .. } => crate::acp_flow::EventKind::TurnCompleted,
            RuntimeEvent::TurnFailed { .. } => crate::acp_flow::EventKind::TurnFailed,
            RuntimeEvent::TurnCancelled { .. } => crate::acp_flow::EventKind::TurnCancelled,
            _ => crate::acp_flow::EventKind::Other,
        }
    }
}

/// A permission request of an external ACP agent, with its details already
/// formatted as JSON text.
#[derive(Debug, Clone)]
pub struct AcpPermissionRequest {
    pub request_id: String,
    pub session_id: String,
    pub tool_call_id: Option<String>,
    pub tool_name: String,
    pub summary: String,
    pub details_json: String,
    pub options: Vec<AcpPermissionOptionData>,
}

} // verus!
