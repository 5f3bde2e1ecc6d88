use ai_agent_system::agent_management::AgentManagementUseCase;
use ai_agent_system::agent_repository::AgentRepository;
use ai_agent_system::domain::AgentConfiguration;
use ai_agent_system::domain::AgentType;
use ai_agent_system::domain::CreateAgentRequest;
use ai_agent_system::domain::CreateTaskRequest;
use ai_agent_system::domain::ExecutionConfiguration;
use ai_agent_system::domain::ModelConfiguration;
use ai_agent_system::domain::SecurityConfiguration;
use ai_agent_system::domain::TaskId;
use ai_agent_system::domain::TaskPriority;
use ai_agent_system::domain::TaskStatus;
use ai_agent_system::domain::TaskType;
use ai_agent_system::Error;
use ai_agent_system::task_management::TaskManagementUseCase;
use ai_agent_system::task_repository::TaskRepository;

fn sample_configuration() -> AgentConfiguration {
    AgentConfiguration {
        model_config: ModelConfiguration {
            model_name: "test".to_string(),
            model_version: "1.0".to_string(),
            parameters: Vec::new(),
            context_window: 1000,
        },
        execution_config: ExecutionConfiguration {
            max_concurrent_tasks: 10,
            timeout_seconds: 30,
            retry_attempts: 3,
            memory_limit_mb: 100,
        },
        security_config: SecurityConfiguration {
            api_key_required: false,
            rate_limit: None,
            allowed_ips: Vec::new(),
            encryption_enabled: false,
        },
    }
}

fn agent_request(name: &str) -> CreateAgentRequest {
    CreateAgentRequest {
        name: name.to_string(),
        description: "a test agent".to_string(),
        agent_type: AgentType::Conversational,
        capabilities: Vec::new(),
        configuration: sample_configuration(),
        metadata: Vec::new(),
    }
}

fn task_request(agent_id: ai_agent_system::domain::AgentId, name: &str) -> CreateTaskRequest {
    CreateTaskRequest {
        agent_id,
        name: name.to_string(),
        description: "a test task".to_string(),
        task_type: TaskType::TextGeneration,
        priority: TaskPriority::Normal,
        input_data: "{\"prompt\":\"Hello, world!\"}".to_string(),
    }
}

/// Lifecycle mutations on a task identifier that was never stored fail
/// with `NotFound` and leave the store untouched.
#[test]
fn test_transitions_on_missing_task_not_found() {
    let mut tasks = TaskManagementUseCase::new(TaskRepository::new());
    let ghost_id = TaskId(12345);

    assert!(matches!(tasks.start_task(&ghost_id), Err(Error::NotFound(_))));
    assert!(matches!(
        tasks.complete_task(&ghost_id, "{}".to_string()),
        Err(Error::NotFound(_))
    ));
    assert!(matches!(
        tasks.fail_task(&ghost_id, "boom".to_string()),
        Err(Error::NotFound(_))
    ));
    assert!(matches!(tasks.cancel_task(&ghost_id), Err(Error::NotFound(_))));
    assert!(matches!(
        tasks.prioritize_task(&ghost_id, TaskPriority::High),
        Err(Error::NotFound(_))
    ));
    assert!(matches!(tasks.delete_task(&ghost_id), Err(Error::NotFound(_))));
    assert_eq!(tasks.get_task_count().unwrap(), 0);
}

/// Creating a task for an agent that does not exist fails with `NotFound`.
#[test]
fn test_create_task_requires_existing_agent() {
    let agents = AgentRepository::new();
    let mut tasks = TaskManagementUseCase::new(TaskRepository::new());
    let request = task_request(ai_agent_system::domain::AgentId(99), "orphan");
    assert!(matches!(tasks.create_task(&agents, request), Err(Error::NotFound(_))));
    assert_eq!(tasks.get_task_count().unwrap(), 0);
}

/// The full scenario: create an agent, create a task for it, start it,
/// complete it with an output payload, and read the statistics.
#[test]
fn test_end_to_end_task_lifecycle() {
    let mut agents = AgentManagementUseCase::new(AgentRepository::new());
    let agent = agents.create_agent(agent_request("A1")).unwrap();
    assert!(matches!(agent.agent_type, AgentType::Conversational));
    assert!(matches!(agent.status, ai_agent_system::domain::AgentStatus::Active));

    let mut tasks = TaskManagementUseCase::new(TaskRepository::new());
    let task = tasks.create_task(&agents.agent_repo, task_request(agent.id, "t1")).unwrap();
    assert!(matches!(task.status, TaskStatus::Pending));
    assert!(task.started_at.is_none());

    let started = tasks.start_task(&task.id).unwrap();
    assert!(matches!(started.status, TaskStatus::Running));
    assert!(started.started_at.is_some());

    let completed = tasks.complete_task(&task.id, "{\"result\":\"ok\"}".to_string()).unwrap();
    assert!(matches!(completed.status, TaskStatus::Completed));
    assert!(completed.completed_at.is_some());
    assert_eq!(completed.output_data, Some("{\"result\":\"ok\"}".to_string()));

    let stats = tasks.get_task_statistics().unwrap();
    assert_eq!(stats.completed_tasks, 1);
    assert_eq!(stats.pending_tasks, 0);
    assert_eq!(stats.running_tasks, 0);
    assert_eq!(stats.failed_tasks, 0);
    assert_eq!(stats.cancelled_tasks, 0);
    assert_eq!(stats.total_tasks, 1);
}

/// The per-status counts always sum to the total count.
#[test]
fn test_statistics_counts_sum_to_total() {
    let mut agents = AgentManagementUseCase::new(AgentRepository::new());
    let agent = agents.create_agent(agent_request("worker")).unwrap();
    let mut tasks = TaskManagementUseCase::new(TaskRepository::new());

    // One task per final state, plus one left pending and one left running.
    let pending = tasks.create_task(&agents.agent_repo, task_request(agent.id, "p")).unwrap();
    let running = tasks.create_task(&agents.agent_repo, task_request(agent.id, "r")).unwrap();
    tasks.start_task(&running.id).unwrap();
    let done = tasks.create_task(&agents.agent_repo, task_request(agent.id, "d")).unwrap();
    tasks.start_task(&done.id).unwrap();
    tasks.complete_task(&done.id, "{}".to_string()).unwrap();
    let failed = tasks.create_task(&agents.agent_repo, task_request(agent.id, "f")).unwrap();
    tasks.start_task(&failed.id).unwrap();
    tasks.fail_task(&failed.id, "broke".to_string()).unwrap();
    let cancelled = tasks.create_task(&agents.agent_repo, task_request(agent.id, "c")).unwrap();
    tasks.cancel_task(&cancelled.id).unwrap();
    let _ = pending;

    let stats = tasks.get_task_statistics().unwrap();
    assert_eq!(stats.pending_tasks, 1);
    assert_eq!(stats.running_tasks, 1);
    assert_eq!(stats.completed_tasks, 1);
    assert_eq!(stats.failed_tasks, 1);
    assert_eq!(stats.cancelled_tasks, 1);
    assert_eq!(stats.total_tasks, 5);
    assert_eq!(
        stats.total_tasks,
        stats.pending_tasks + stats.running_tasks + stats.completed_tasks + stats.failed_tasks
            + stats.cancelled_tasks,
    );
}

/// Illegal lifecycle transitions are rejected as validation failures and
/// change nothing.
#[test]
fn test_illegal_transitions_rejected() {
    let mut agents = AgentManagementUseCase::new(AgentRepository::new());
    let agent = agents.create_agent(agent_request("strict")).unwrap();
    let mut tasks = TaskManagementUseCase::new(TaskRepository::new());

    let task = tasks.create_task(&agents.agent_repo, task_request(agent.id, "t")).unwrap();

    // A pending task cannot complete or fail without running first.
    assert!(matches!(
        tasks.complete_task(&task.id, "{}".to_string()),
        Err(Error::ValidationError(_))
    ));
    assert!(matches!(
        tasks.fail_task(&task.id, "nope".to_string()),
        Err(Error::ValidationError(_))
    ));

    // Cancelling a pending task is allowed, and terminal states are final.
    tasks.cancel_task(&task.id).unwrap();
    assert!(matches!(tasks.start_task(&task.id), Err(Error::ValidationError(_))));
    assert!(matches!(tasks.cancel_task(&task.id), Err(Error::ValidationError(_))));

    let still = tasks.find_task(&task.id).unwrap().unwrap();
    assert!(matches!(still.status, TaskStatus::Cancelled));
}

/// A failed task carries its error message and no output.
#[test]
fn test_fail_task_records_error() {
    let mut agents = AgentManagementUseCase::new(AgentRepository::new());
    let agent = agents.create_agent(agent_request("fallible")).unwrap();
    let mut tasks = TaskManagementUseCase::new(TaskRepository::new());

    let task = tasks.create_task(&agents.agent_repo, task_request(agent.id, "t")).unwrap();
    tasks.start_task(&task.id).unwrap();
    let failed = tasks.fail_task(&task.id, "timeout talking to model".to_string()).unwrap();
    assert!(matches!(failed.status, TaskStatus::Failed));
    assert_eq!(failed.error_message, Some("timeout talking to model".to_string()));
    assert!(failed.output_data.is_none());
    assert!(failed.completed_at.is_some());
}

/// Priority can change in any state without touching the rest of the task.
#[test]
fn test_prioritize_task() {
    let mut agents = AgentManagementUseCase::new(AgentRepository::new());
    let agent = agents.create_agent(agent_request("busy")).unwrap();
    let mut tasks = TaskManagementUseCase::new(TaskRepository::new());

    let task = tasks.create_task(&agents.agent_repo, task_request(agent.id, "t")).unwrap();
    let raised = tasks.prioritize_task(&task.id, TaskPriority::Critical).unwrap();
    assert!(matches!(raised.priority, TaskPriority::Critical));
    assert!(matches!(raised.status, TaskStatus::Pending));
    assert_eq!(raised.input_data, task.input_data);

    let by_priority = tasks.find_tasks_by_priority(&TaskPriority::Critical).unwrap();
    assert_eq!(by_priority.len(), 1);
    assert_eq!(by_priority[0].id, task.id);
}

/// Queries by agent and by status see exactly the matching tasks.
#[test]
fn test_task_queries() {
    let mut agents = AgentManagementUseCase::new(AgentRepository::new());
    let a1 = agents.create_agent(agent_request("one")).unwrap();
    let a2 = agents.create_agent(agent_request("two")).unwrap();
    let mut tasks = TaskManagementUseCase::new(TaskRepository::new());

    let t1 = tasks.create_task(&agents.agent_repo, task_request(a1.id, "t1")).unwrap();
    let _t2 = tasks.create_task(&agents.agent_repo, task_request(a2.id, "t2")).unwrap();
    tasks.start_task(&t1.id).unwrap();

    let for_a1 = tasks.find_tasks_by_agent(&a1.id).unwrap();
    assert_eq!(for_a1.len(), 1);
    assert_eq!(for_a1[0].name, "t1");

    assert_eq!(tasks.get_pending_tasks().unwrap().len(), 1);
    assert_eq!(tasks.get_running_tasks().unwrap().len(), 1);
    assert_eq!(tasks.list_all_tasks().unwrap().len(), 2);
    assert_eq!(tasks.get_task_count_by_status(&TaskStatus::Running).unwrap(), 1);
}

/// The default orchestration policy plans nothing.
#[test]
fn test_orchestration_defaults_are_empty() {
    let tasks = TaskManagementUseCase::new(TaskRepository::new());
    assert!(tasks.balance_workload().unwrap().is_empty());
    assert!(tasks.detect_agent_failures().unwrap().is_empty());
    assert!(tasks.redistribute_tasks(&ai_agent_system::domain::AgentId(1)).is_ok());
    assert!(tasks.optimize_agent_allocation().unwrap().is_empty());
}
