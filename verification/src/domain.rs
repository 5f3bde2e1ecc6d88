//! Domain entities and value objects: agents with their capabilities,
//! configuration and metadata; tasks; learning sessions; messages and
//! plugins. Each heap-holding entity has a mathematical view used by all
//! contracts, and a verified `Clone` that provably preserves that view.
//!
//! Representation choices: identifiers are opaque 128-bit values;
//! timestamps are milliseconds since the Unix epoch; opaque payloads (task
//! input and output, training items) are carried as their JSON text; and
//! fractional measures (metric scores, training weights, model parameters)
//! are carried in fixed point as micro-units, one unit being 1_000_000, so
//! that the core stays free of floating point.

use vstd::prelude::*;

verus! {

/// One whole unit in the fixed-point scale used for fractional measures.
pub const MICROS_PER_UNIT: u64 = 1_000_000;

// ---------------------------------------------------------------------
// Identifiers
// ---------------------------------------------------------------------

/// Identifier of an `Agent`.
#[derive(Clone, Copy, PartialEq, Eq, Hash, Structural, Debug)]
pub struct AgentId(pub u128);

impl AgentId {
    /// A fresh random identifier.
    pub fn new() -> Self {
        AgentId(crate::runtime::fresh_id())
    }
}

/// Identifier of a `Task`.
#[derive(Clone, Copy, PartialEq, Eq, Hash, Structural, Debug)]
pub struct TaskId(pub u128);

impl TaskId {
    /// A fresh random identifier.
    pub fn new() -> Self {
        TaskId(crate::runtime::fresh_id())
    }
}

/// Identifier of a `Message`.
#[derive(Clone, Copy, PartialEq, Eq, Hash, Structural, Debug)]
pub struct MessageId(pub u128);

impl MessageId {
    /// A fresh random identifier.
    pub fn new() -> Self {
        MessageId(crate::runtime::fresh_id())
    }
}

/// Identifier of a `LearningSession`.
#[derive(Clone, Copy, PartialEq, Eq, Hash, Structural, Debug)]
pub struct LearningSessionId(pub u128);

impl LearningSessionId {
    /// A fresh random identifier.
    pub fn new() -> Self {
        LearningSessionId(crate::runtime::fresh_id())
    }
}

// ---------------------------------------------------------------------
// Enumerations
// ---------------------------------------------------------------------

/// What kind of worker an agent is; `Custom` is an open-ended tag.
#[derive(Debug)]
pub enum AgentType {
    Conversational,
    TaskExecutor,
    Learning,
    Monitoring,
    Orchestrator,
    Custom(String),
}

/// Whether two agent types denote the same kind, comparing custom tags by
/// their text.
pub open spec fn agent_type_eq(a: AgentType, b: AgentType) -> bool {
    match a {
        AgentType::Conversational => b is Conversational,
        AgentType::TaskExecutor => b is TaskExecutor,
        AgentType::Learning => b is Learning,
        AgentType::Monitoring => b is Monitoring,
        AgentType::Orchestrator => b is Orchestrator,
        AgentType::Custom(x) => match b {
            AgentType::Custom(y) => x@ == y@,
            _ => false,
        },
    }
}

impl PartialEq for AgentType {
    fn eq(&self, other: &AgentType) -> (r: bool) {
        let r = match self {
            AgentType::Conversational => matches!(other, AgentType::Conversational),
            AgentType::TaskExecutor => matches!(other, AgentType::TaskExecutor),
            AgentType::Learning => matches!(other, AgentType::Learning),
            AgentType::Monitoring => matches!(other, AgentType::Monitoring),
            AgentType::Orchestrator => matches!(other, AgentType::Orchestrator),
            AgentType::Custom(x) => match other {
                AgentType::Custom(y) => x.eq(y),
                _ => false,
            },
        };
        r
    }
}

impl vstd::std_specs::cmp::PartialEqSpecImpl for AgentType {
    open spec fn obeys_eq_spec() -> bool {
        true
    }

    open spec fn eq_spec(&self, other: &AgentType) -> bool {
        agent_type_eq(*self, *other)
    }
}

impl Clone for AgentType {
    fn clone(&self) -> (r: Self)
        ensures
            r == *self,
    {
        match self {
            AgentType::Conversational => AgentType::Conversational,
            AgentType::TaskExecutor => AgentType::TaskExecutor,
            AgentType::Learning => AgentType::Learning,
            AgentType::Monitoring => AgentType::Monitoring,
            AgentType::Orchestrator => AgentType::Orchestrator,
            AgentType::Custom(s) => AgentType::Custom(s.clone()),
        }
    }
}

/// Operational status of an agent; these are independently settable, not a
/// strict machine.
#[derive(Clone, Copy, PartialEq, Eq, Structural, Debug)]
pub enum AgentStatus {
    Active,
    Inactive,
    Training,
    Error,
    Maintenance,
}

/// What kind of work a task performs; `Custom` is an open-ended tag.
#[derive(Debug)]
pub enum TaskType {
    TextGeneration,
    ImageGeneration,
    DataAnalysis,
    ModelTraining,
    SystemMonitoring,
    Custom(String),
}

impl Clone for TaskType {
    fn clone(&self) -> (r: Self)
        ensures
            r == *self,
    {
        match self {
            TaskType::TextGeneration => TaskType::TextGeneration,
            TaskType::ImageGeneration => TaskType::ImageGeneration,
            TaskType::DataAnalysis => TaskType::DataAnalysis,
            TaskType::ModelTraining => TaskType::ModelTraining,
            TaskType::SystemMonitoring => TaskType::SystemMonitoring,
            TaskType::Custom(s) => TaskType::Custom(s.clone()),
        }
    }
}

/// Lifecycle state of a task. Legal transitions: Pending to Running;
/// Running to Completed, Failed or Cancelled; Pending directly to
/// Cancelled. Completed, Failed and Cancelled are terminal.
#[derive(Clone, Copy, PartialEq, Eq, Structural, Debug)]
pub enum TaskStatus {
    Pending,
    Running,
    Completed,
    Failed,
    Cancelled,
}

/// Scheduling priority of a task.
#[derive(Clone, Copy, PartialEq, Eq, Structural, Debug)]
pub enum TaskPriority {
    Low,
    Normal,
    High,
    Critical,
}

/// What kind of content a message carries.
#[derive(Clone, Copy, PartialEq, Eq, Structural, Debug)]
pub enum MessageType {
    Text,
    Data,
    Command,
    Response,
    Error,
    System,
}

/// Training regime of a learning session.
#[derive(Clone, Copy, PartialEq, Eq, Structural, Debug)]
pub enum LearningSessionType {
    Supervised,
    Unsupervised,
    Reinforcement,
    Transfer,
    FineTuning,
}

/// Lifecycle state of a learning session. Preparing, Training and
/// Evaluating are live; Completed and Failed are terminal.
#[derive(Clone, Copy, PartialEq, Eq, Structural, Debug)]
pub enum LearningSessionStatus {
    Preparing,
    Training,
    Evaluating,
    Completed,
    Failed,
}

// ---------------------------------------------------------------------
// Agent aggregate
// ---------------------------------------------------------------------

/// One ability of an agent. Within one agent, capabilities are keyed by
/// `name`.
#[derive(Debug)]
pub struct Capability {
    pub name: String,
    pub description: String,
    pub version: String,
    /// String-keyed parameter mapping; values are kept as text.
    pub parameters: Vec<(String, String)>,
}

/// Mathematical view of a `Capability`.
pub struct CapabilityView {
    pub name: String,
    pub description: String,
    pub version: String,
    pub parameters: Seq<(String, String)>,
}

impl View for Capability {
    type V = CapabilityView;

    open spec fn view(&self) -> CapabilityView {
        CapabilityView {
            name: self.name,
            description: self.description,
            version: self.version,
            parameters: self.parameters@,
        }
    }
}

impl Clone for Capability {
    fn clone(&self) -> (r: Self)
        ensures
            r@ == self@,
    {
        Capability {
            name: self.name.clone(),
            description: self.description.clone(),
            version: self.version.clone(),
            parameters: clone_string_pairs(&self.parameters),
        }
    }
}

/// Model parameters of an agent. Numeric parameter values are kept as
/// their decimal text.
#[derive(Debug)]
pub struct ModelConfiguration {
    pub model_name: String,
    pub model_version: String,
    pub parameters: Vec<(String, String)>,
    pub context_window: usize,
}

/// Mathematical view of a `ModelConfiguration`.
pub struct ModelConfigurationView {
    pub model_name: String,
    pub model_version: String,
    pub parameters: Seq<(String, String)>,
    pub context_window: usize,
}

impl View for ModelConfiguration {
    type V = ModelConfigurationView;

    open spec fn view(&self) -> ModelConfigurationView {
        ModelConfigurationView {
            model_name: self.model_name,
            model_version: self.model_version,
            parameters: self.parameters@,
            context_window: self.context_window,
        }
    }
}

impl Clone for ModelConfiguration {
    fn clone(&self) -> (r: Self)
        ensures
            r@ == self@,
    {
        ModelConfiguration {
            model_name: self.model_name.clone(),
            model_version: self.model_version.clone(),
            parameters: clone_string_pairs(&self.parameters),
            context_window: self.context_window,
        }
    }
}

/// Execution limits of an agent.
#[derive(Clone, Copy, PartialEq, Eq, Structural, Debug)]
pub struct ExecutionConfiguration {
    pub max_concurrent_tasks: usize,
    pub timeout_seconds: u64,
    pub retry_attempts: u32,
    pub memory_limit_mb: usize,
}

/// Security policy of an agent.
#[derive(Debug)]
pub struct SecurityConfiguration {
    pub api_key_required: bool,
    pub rate_limit: Option<u32>,
    pub allowed_ips: Vec<String>,
    pub encryption_enabled: bool,
}

/// Mathematical view of a `SecurityConfiguration`.
pub struct SecurityConfigurationView {
    pub api_key_required: bool,
    pub rate_limit: Option<u32>,
    pub allowed_ips: Seq<String>,
    pub encryption_enabled: bool,
}

impl View for SecurityConfiguration {
    type V = SecurityConfigurationView;

    open spec fn view(&self) -> SecurityConfigurationView {
        SecurityConfigurationView {
            api_key_required: self.api_key_required,
            rate_limit: self.rate_limit,
            allowed_ips: self.allowed_ips@,
            encryption_enabled: self.encryption_enabled,
        }
    }
}

impl Clone for SecurityConfiguration {
    fn clone(&self) -> (r: Self)
        ensures
            r@ == self@,
    {
        SecurityConfiguration {
            api_key_required: self.api_key_required,
            rate_limit: self.rate_limit,
            allowed_ips: clone_strings(&self.allowed_ips),
            encryption_enabled: self.encryption_enabled,
        }
    }
}

/// Nested configuration of an agent: model parameters, execution limits
/// and security policy.
#[derive(Debug)]
pub struct AgentConfiguration {
    pub model_config: ModelConfiguration,
    pub execution_config: ExecutionConfiguration,
    pub security_config: SecurityConfiguration,
}

/// Mathematical view of an `AgentConfiguration`.
pub struct AgentConfigurationView {
    pub model_config: ModelConfigurationView,
    pub execution_config: ExecutionConfiguration,
    pub security_config: SecurityConfigurationView,
}

impl View for AgentConfiguration {
    type V = AgentConfigurationView;

    open spec fn view(&self) -> AgentConfigurationView {
        AgentConfigurationView {
            model_config: self.model_config@,
            execution_config: self.execution_config,
            security_config: self.security_config@,
        }
    }
}

impl Clone for AgentConfiguration {
    fn clone(&self) -> (r: Self)
        ensures
            r@ == self@,
    {
        AgentConfiguration {
            model_config: self.model_config.clone(),
            execution_config: self.execution_config,
            security_config: self.security_config.clone(),
        }
    }
}

/// Aggregate root: an autonomous worker with its capabilities, nested
/// configuration and free-form metadata.
#[derive(Debug)]
pub struct Agent {
    pub id: AgentId,
    pub name: String,
    pub description: String,
    pub agent_type: AgentType,
    pub status: AgentStatus,
    pub capabilities: Vec<Capability>,
    pub configuration: AgentConfiguration,
    /// String-keyed metadata mapping.
    pub metadata: Vec<(String, String)>,
    pub created_at: i64,
    pub updated_at: i64,
}

/// Mathematical view of an `Agent`.
pub struct AgentView {
    pub id: u128,
    pub name: String,
    pub description: String,
    pub agent_type: AgentType,
    pub status: AgentStatus,
    pub capabilities: Seq<CapabilityView>,
    pub configuration: AgentConfigurationView,
    pub metadata: Seq<(String, String)>,
    pub created_at: i64,
    pub updated_at: i64,
}

impl View for Agent {
    type V = AgentView;

    open spec fn view(&self) -> AgentView {
        AgentView {
            id: self.id.0,
            name: self.name,
            description: self.description,
            agent_type: self.agent_type,
            status: self.status,
            capabilities: self.capabilities@.map_values(|c: Capability| c@),
            configuration: self.configuration@,
            metadata: self.metadata@,
            created_at: self.created_at,
            updated_at: self.updated_at,
        }
    }
}

/// The names of a capability sequence, in order.
pub open spec fn capability_names(caps: Seq<CapabilityView>) -> Seq<Seq<char>> {
    caps.map_values(|c: CapabilityView| c.name@)
}

/// Whether no two capabilities share a name.
pub open spec fn distinct_capability_names(caps: Seq<CapabilityView>) -> bool {
    forall|i: int, j: int|
        0 <= i < j < caps.len() ==> caps[i].name@ != caps[j].name@
}

/// Whether no two pairs share a key.
pub open spec fn distinct_keys(pairs: Seq<(String, String)>) -> bool {
    forall|i: int, j: int|
        0 <= i < j < pairs.len() ==> pairs[i].0@ != pairs[j].0@
}

impl AgentView {
    /// Aggregate invariant: capabilities keyed by name, metadata keyed by
    /// key, and the update timestamp never before the creation timestamp.
    pub open spec fn wf(self) -> bool {
        &&& distinct_capability_names(self.capabilities)
        &&& distinct_keys(self.metadata)
        &&& self.created_at <= self.updated_at
    }
}

impl Clone for Agent {
    fn clone(&self) -> (r: Self)
        ensures
            r@ == self@,
    {
        let r = Agent {
            id: self.id,
            name: self.name.clone(),
            description: self.description.clone(),
            agent_type: self.agent_type.clone(),
            status: self.status,
            capabilities: clone_capabilities(&self.capabilities),
            configuration: self.configuration.clone(),
            metadata: clone_string_pairs(&self.metadata),
            created_at: self.created_at,
            updated_at: self.updated_at,
        };
        r
    }
}

// ---------------------------------------------------------------------
// Task aggregate
// ---------------------------------------------------------------------

/// A unit of work executed by an agent. Opaque payloads are carried as
/// JSON text. `Task` values have no heap-backed collections, so contracts
/// speak of whole-value equality directly.
#[derive(Debug)]
pub struct Task {
    pub id: TaskId,
    pub agent_id: AgentId,
    pub name: String,
    pub description: String,
    pub task_type: TaskType,
    pub status: TaskStatus,
    pub priority: TaskPriority,
    pub input_data: String,
    pub output_data: Option<String>,
    pub created_at: i64,
    pub started_at: Option<i64>,
    pub completed_at: Option<i64>,
    pub error_message: Option<String>,
}

impl Task {
    /// Lifecycle invariant: the start timestamp is set exactly when the
    /// status has left Pending, the completion timestamp exactly in a
    /// terminal status, output only when Completed, and an error message
    /// only when Failed.
    pub open spec fn wf(self) -> bool {
        match self.status {
            TaskStatus::Pending => self.started_at is None && self.completed_at is None
                && self.output_data is None && self.error_message is None,
            TaskStatus::Running => self.started_at is Some && self.completed_at is None
                && self.output_data is None && self.error_message is None,
            TaskStatus::Completed => self.started_at is Some && self.completed_at is Some
                && self.output_data is Some && self.error_message is None,
            TaskStatus::Failed => self.started_at is Some && self.completed_at is Some
                && self.output_data is None && self.error_message is Some,
            TaskStatus::Cancelled => self.completed_at is Some && self.output_data is None
                && self.error_message is None,
        }
    }
}

impl Clone for Task {
    fn clone(&self) -> (r: Self)
        ensures
            r == *self,
    {
        Task {
            id: self.id,
            agent_id: self.agent_id,
            name: self.name.clone(),
            description: self.description.clone(),
            task_type: self.task_type.clone(),
            status: self.status,
            priority: self.priority,
            input_data: self.input_data.clone(),
            output_data: clone_opt_string(&self.output_data),
            created_at: self.created_at,
            started_at: self.started_at,
            completed_at: self.completed_at,
            error_message: clone_opt_string(&self.error_message),
        }
    }
}

// ---------------------------------------------------------------------
// Learning aggregate
// ---------------------------------------------------------------------

/// One training example: input and optional expected output as JSON text,
/// and a fixed-point weight in micro-units.
#[derive(Debug)]
pub struct TrainingData {
    pub input: String,
    pub output: Option<String>,
    /// Weight in micro-units; 1_000_000 is a weight of one.
    pub weight: u64,
}

impl Clone for TrainingData {
    fn clone(&self) -> (r: Self)
        ensures
            r == *self,
    {
        TrainingData {
            input: self.input.clone(),
            output: clone_opt_string(&self.output),
            weight: self.weight,
        }
    }
}

/// Opaque snapshot of a trained model.
#[derive(Debug)]
pub struct ModelSnapshot {
    pub model_data: Vec<u8>,
    pub version: String,
    pub checksum: String,
}

/// Mathematical view of a `ModelSnapshot`.
pub struct ModelSnapshotView {
    pub model_data: Seq<u8>,
    pub version: String,
    pub checksum: String,
}

impl View for ModelSnapshot {
    type V = ModelSnapshotView;

    open spec fn view(&self) -> ModelSnapshotView {
        ModelSnapshotView {
            model_data: self.model_data@,
            version: self.version,
            checksum: self.checksum,
        }
    }
}

impl Clone for ModelSnapshot {
    fn clone(&self) -> (r: Self)
        ensures
            r@ == self@,
    {
        let mut data: Vec<u8> = Vec::new();
        let mut i: usize = 0;
        while i < self.model_data.len()
            invariant
                i <= self.model_data.len(),
                data@ == self.model_data@.subrange(0, i as int),
            decreases self.model_data.len() - i,
        {
            data.push(self.model_data[i]);
            i = i + 1;
        }
        proof {
            assert(data@ =~= self.model_data@);
        }
        ModelSnapshot {
            model_data: data,
            version: self.version.clone(),
            checksum: self.checksum.clone(),
        }
    }
}

/// Scores of a learning session, in fixed-point micro-units; a score of
/// 1.0 is 1_000_000.
#[derive(Debug)]
pub struct LearningMetrics {
    pub accuracy: Option<u64>,
    pub loss: Option<u64>,
    pub precision: Option<u64>,
    pub recall: Option<u64>,
    pub f1_score: Option<u64>,
    pub custom_metrics: Vec<(String, u64)>,
}

/// Mathematical view of `LearningMetrics`.
pub struct LearningMetricsView {
    pub accuracy: Option<u64>,
    pub loss: Option<u64>,
    pub precision: Option<u64>,
    pub recall: Option<u64>,
    pub f1_score: Option<u64>,
    pub custom_metrics: Seq<(String, u64)>,
}

impl View for LearningMetrics {
    type V = LearningMetricsView;

    open spec fn view(&self) -> LearningMetricsView {
        LearningMetricsView {
            accuracy: self.accuracy,
            loss: self.loss,
            precision: self.precision,
            recall: self.recall,
            f1_score: self.f1_score,
            custom_metrics: self.custom_metrics@,
        }
    }
}

impl LearningMetrics {
    /// Metrics with every score absent.
    pub fn empty() -> (r: Self)
        ensures
            r@.accuracy is None,
            r@.loss is None,
            r@.precision is None,
            r@.recall is None,
            r@.f1_score is None,
            r@.custom_metrics == Seq::<(String, u64)>::empty(),
    {
        let r = LearningMetrics {
            accuracy: None,
            loss: None,
            precision: None,
            recall: None,
            f1_score: None,
            custom_metrics: Vec::new(),
        };
        proof {
            assert(r.custom_metrics@ =~= Seq::<(String, u64)>::empty());
        }
        r
    }
}

impl Clone for LearningMetrics {
    fn clone(&self) -> (r: Self)
        ensures
            r@ == self@,
    {
        let mut custom: Vec<(String, u64)> = Vec::new();
        let mut i: usize = 0;
        while i < self.custom_metrics.len()
            invariant
                i <= self.custom_metrics.len(),
                custom@ == self.custom_metrics@.subrange(0, i as int),
            decreases self.custom_metrics.len() - i,
        {
            let pair = (self.custom_metrics[i].0.clone(), self.custom_metrics[i].1);
            custom.push(pair);
            proof {
                assert(custom@ =~= self.custom_metrics@.subrange(0, i + 1 as int));
            }
            i = i + 1;
        }
        proof {
            assert(custom@ =~= self.custom_metrics@);
        }
        LearningMetrics {
            accuracy: self.accuracy,
            loss: self.loss,
            precision: self.precision,
            recall: self.recall,
            f1_score: self.f1_score,
            custom_metrics: custom,
        }
    }
}

/// A retraining run owned by an agent.
#[derive(Debug)]
pub struct LearningSession {
    pub id: LearningSessionId,
    pub agent_id: AgentId,
    pub session_type: LearningSessionType,
    pub status: LearningSessionStatus,
    pub training_data: Vec<TrainingData>,
    pub model_snapshot: Option<ModelSnapshot>,
    pub metrics: LearningMetrics,
    pub created_at: i64,
    pub completed_at: Option<i64>,
}

/// Mathematical view of a `LearningSession`.
pub struct LearningSessionView {
    pub id: u128,
    pub agent_id: u128,
    pub session_type: LearningSessionType,
    pub status: LearningSessionStatus,
    pub training_data: Seq<TrainingData>,
    pub model_snapshot: Option<ModelSnapshotView>,
    pub metrics: LearningMetricsView,
    pub created_at: i64,
    pub completed_at: Option<i64>,
}

impl View for LearningSession {
    type V = LearningSessionView;

    open spec fn view(&self) -> LearningSessionView {
        LearningSessionView {
            id: self.id.0,
            agent_id: self.agent_id.0,
            session_type: self.session_type,
            status: self.status,
            training_data: self.training_data@,
            model_snapshot: match self.model_snapshot {
                Some(s) => Some(s@),
                None => None,
            },
            metrics: self.metrics@,
            created_at: self.created_at,
            completed_at: self.completed_at,
        }
    }
}

impl LearningSessionView {
    /// Lifecycle invariant: the completion timestamp is set exactly in a
    /// terminal status.
    pub open spec fn wf(self) -> bool {
        match self.status {
            LearningSessionStatus::Preparing => self.completed_at is None,
            LearningSessionStatus::Training => self.completed_at is None,
            LearningSessionStatus::Evaluating => self.completed_at is None,
            LearningSessionStatus::Completed => self.completed_at is Some,
            LearningSessionStatus::Failed => self.completed_at is Some,
        }
    }

    /// Whether the session is still live.
    pub open spec fn is_active(self) -> bool {
        self.status is Preparing || self.status is Training || self.status is Evaluating
    }
}

impl Clone for LearningSession {
    fn clone(&self) -> (r: Self)
        ensures
            r@ == self@,
    {
        let mut data: Vec<TrainingData> = Vec::new();
        let mut i: usize = 0;
        while i < self.training_data.len()
            invariant
                i <= self.training_data.len(),
                data@ == self.training_data@.subrange(0, i as int),
            decreases self.training_data.len() - i,
        {
            data.push(self.training_data[i].clone());
            proof {
                assert(data@ =~= self.training_data@.subrange(0, i + 1 as int));
            }
            i = i + 1;
        }
        proof {
            assert(data@ =~= self.training_data@);
        }
        LearningSession {
            id: self.id,
            agent_id: self.agent_id,
            session_type: self.session_type,
            status: self.status,
            training_data: data,
            model_snapshot: match &self.model_snapshot {
                Some(s) => Some(s.clone()),
                None => None,
            },
            metrics: self.metrics.clone(),
            created_at: self.created_at,
            completed_at: self.completed_at,
        }
    }
}

// ---------------------------------------------------------------------
// Messages and plugins
// ---------------------------------------------------------------------

/// A file attached to a message.
#[derive(Debug)]
pub struct Attachment {
    pub name: String,
    pub content_type: String,
    pub size: usize,
    pub data: Vec<u8>,
}

/// Content of a message: text, opaque data as JSON text, attachments.
#[derive(Debug)]
pub struct MessageContent {
    pub text: Option<String>,
    pub data: Option<String>,
    pub attachments: Vec<Attachment>,
}

/// A message exchanged between agents.
#[derive(Debug)]
pub struct Message {
    pub id: MessageId,
    pub sender_id: AgentId,
    pub receiver_id: Option<AgentId>,
    pub content: MessageContent,
    pub message_type: MessageType,
    pub timestamp: i64,
    pub metadata: Vec<(String, String)>,
}

/// An installable extension with its dependency list.
#[derive(Debug)]
pub struct Plugin {
    pub id: String,
    pub name: String,
    pub version: String,
    pub description: String,
    pub enabled: bool,
    pub configuration: Vec<(String, String)>,
    pub dependencies: Vec<String>,
}

/// Credentials an agent presents at the security boundary.
#[derive(Debug)]
pub struct AgentCredentials {
    pub agent_id: AgentId,
    pub api_key: String,
    pub timestamp: i64,
}

/// Outcome of authenticating an agent.
#[derive(Debug)]
pub struct AuthenticationResult {
    pub authenticated: bool,
    pub agent_id: Option<AgentId>,
    pub permissions: Vec<String>,
    pub expires_at: i64,
}

// ---------------------------------------------------------------------
// Requests
// ---------------------------------------------------------------------

/// Inputs needed to create an `Agent`.
#[derive(Debug)]
pub struct CreateAgentRequest {
    pub name: String,
    pub description: String,
    pub agent_type: AgentType,
    pub capabilities: Vec<Capability>,
    pub configuration: AgentConfiguration,
    pub metadata: Vec<(String, String)>,
}

impl CreateAgentRequest {
    /// Request invariant: capabilities keyed by name and metadata keyed by
    /// key, as the aggregate they become requires.
    pub open spec fn wf(self) -> bool {
        &&& distinct_capability_names(self.capabilities@.map_values(|c: Capability| c@))
        &&& distinct_keys(self.metadata@)
    }
}

/// Inputs needed to create a `Task`.
#[derive(Debug)]
pub struct CreateTaskRequest {
    pub agent_id: AgentId,
    pub name: String,
    pub description: String,
    pub task_type: TaskType,
    pub priority: TaskPriority,
    pub input_data: String,
}

/// Inputs needed to start a `LearningSession`.
#[derive(Debug)]
pub struct StartLearningSessionRequest {
    pub agent_id: AgentId,
    pub session_type: LearningSessionType,
    pub training_data: Vec<TrainingData>,
}

/// Inputs needed to send a `Message`.
#[derive(Debug)]
pub struct SendMessageRequest {
    pub sender_id: AgentId,
    pub receiver_id: Option<AgentId>,
    pub content: MessageContent,
    pub message_type: MessageType,
    pub metadata: Vec<(String, String)>,
}

/// Inputs needed to broadcast a `Message` to agents of given types.
#[derive(Debug)]
pub struct BroadcastMessageRequest {
    pub sender_id: AgentId,
    pub content: MessageContent,
    pub message_type: MessageType,
    pub target_agent_types: Vec<AgentType>,
    pub metadata: Vec<(String, String)>,
}

// ---------------------------------------------------------------------
// Cloning helpers
// ---------------------------------------------------------------------

/// Copies an optional string, preserving the value.
pub fn clone_opt_string(s: &Option<String>) -> (r: Option<String>)
    ensures
        r == *s,
{
    match s {
        Some(x) => Some(x.clone()),
        None => None,
    }
}

/// Copies a vector of strings, preserving the sequence of values.
pub fn clone_strings(v: &Vec<String>) -> (r: Vec<String>)
    ensures
        r@ == v@,
{
    let mut out: Vec<String> = Vec::new();
    let mut i: usize = 0;
    while i < v.len()
        invariant
            i <= v.len(),
            out@ == v@.subrange(0, i as int),
        decreases v.len() - i,
    {
        out.push(v[i].clone());
        proof {
            assert(out@ =~= v@.subrange(0, i + 1 as int));
        }
        i = i + 1;
    }
    proof {
        assert(out@ =~= v@);
    }
    out
}

/// Copies a vector of key-value string pairs, preserving the sequence of
/// values.
pub fn clone_string_pairs(v: &Vec<(String, String)>) -> (r: Vec<(String, String)>)
    ensures
        r@ == v@,
{
    let mut out: Vec<(String, String)> = Vec::new();
    let mut i: usize = 0;
    while i < v.len()
        invariant
            i <= v.len(),
            out@ == v@.subrange(0, i as int),
        decreases v.len() - i,
    {
        let pair = (v[i].0.clone(), v[i].1.clone());
        proof {
            assert(pair == v@[i as int]);
        }
        out.push(pair);
        proof {
            assert(out@ =~= v@.subrange(0, i + 1 as int));
        }
        i = i + 1;
    }
    proof {
        assert(out@ =~= v@);
    }
    out
}

/// Copies a vector of capabilities, preserving the sequence of views.
pub fn clone_capabilities(v: &Vec<Capability>) -> (r: Vec<Capability>)
    ensures
        r@.map_values(|c: Capability| c@) == v@.map_values(|c: Capability| c@),
{
    let mut out: Vec<Capability> = Vec::new();
    let mut i: usize = 0;
    while i < v.len()
        invariant
            i <= v.len(),
            out@.len() == i,
            forall|j: int| 0 <= j < i ==> #[trigger] out@[j]@ == v@[j]@,
        decreases v.len() - i,
    {
        out.push(v[i].clone());
        i = i + 1;
    }
    proof {
        assert(out@.map_values(|c: Capability| c@) =~= v@.map_values(|c: Capability| c@));
    }
    out
}

} // verus!
