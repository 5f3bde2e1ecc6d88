use ai_agent_system::agent_management::AgentManagementUseCase;
use ai_agent_system::agent_repository::AgentRepository;
use ai_agent_system::domain::AgentConfiguration;
use ai_agent_system::domain::AgentType;
use ai_agent_system::domain::CreateAgentRequest;
use ai_agent_system::domain::ExecutionConfiguration;
use ai_agent_system::domain::LearningMetrics;
use ai_agent_system::domain::LearningSessionId;
use ai_agent_system::domain::LearningSessionStatus;
use ai_agent_system::domain::LearningSessionType;
use ai_agent_system::domain::ModelConfiguration;
use ai_agent_system::domain::ModelSnapshot;
use ai_agent_system::domain::SecurityConfiguration;
use ai_agent_system::domain::StartLearningSessionRequest;
use ai_agent_system::domain::TrainingData;
use ai_agent_system::Error;
use ai_agent_system::learning_management::LearningManagementUseCase;
use ai_agent_system::learning_repository::LearningSessionRepository;

fn sample_configuration() -> AgentConfiguration {
    AgentConfiguration {
        model_config: ModelConfiguration {
            model_name: "test".to_string(),
            model_version: "1.0".to_string(),
            parameters: Vec::new(),
            context_window: 1000,
        },
        execution_config: ExecutionConfiguration {
            max_concurrent_tasks: 10,
            timeout_seconds: 30,
            retry_attempts: 3,
            memory_limit_mb: 100,
        },
        security_config: SecurityConfiguration {
            api_key_required: false,
            rate_limit: None,
            allowed_ips: Vec::new(),
            encryption_enabled: false,
        },
    }
}

fn agent_request(name: &str) -> CreateAgentRequest {
    CreateAgentRequest {
        name: name.to_string(),
        description: "a test agent".to_string(),
        agent_type: AgentType::Learning,
        capabilities: Vec::new(),
        configuration: sample_configuration(),
        metadata: Vec::new(),
    }
}

fn training_item(input: &str) -> TrainingData {
    TrainingData {
        input: input.to_string(),
        output: Some("{\"response\":\"Hi there!\"}".to_string()),
        weight: 1_000_000,
    }
}

fn session_request(
    agent_id: ai_agent_system::domain::AgentId,
) -> StartLearningSessionRequest {
    StartLearningSessionRequest {
        agent_id,
        session_type: LearningSessionType::Supervised,
        training_data: vec![training_item("{\"text\":\"Hello\"}")],
    }
}

#[test]
fn test_start_learning_session() {
    let mut agents = AgentManagementUseCase::new(AgentRepository::new());
    let agent = agents.create_agent(agent_request("learner")).unwrap();
    let mut learning = LearningManagementUseCase::new(LearningSessionRepository::new());

    let session = learning
        .start_learning_session(&agents.agent_repo, session_request(agent.id))
        .unwrap();
    assert!(matches!(session.status, LearningSessionStatus::Preparing));
    assert_eq!(session.agent_id, agent.id);
    assert_eq!(session.training_data.len(), 1);
    assert!(session.model_snapshot.is_none());
    assert!(session.metrics.accuracy.is_none());
    assert!(session.completed_at.is_none());
}

#[test]
fn test_start_learning_session_requires_agent() {
    let agents = AgentRepository::new();
    let mut learning = LearningManagementUseCase::new(LearningSessionRepository::new());
    let request = session_request(ai_agent_system::domain::AgentId(5));
    assert!(matches!(
        learning.start_learning_session(&agents, request),
        Err(Error::NotFound(_))
    ));
    assert_eq!(learning.get_learning_session_count().unwrap(), 0);
}

#[test]
fn test_learning_progress_and_completion() {
    let mut agents = AgentManagementUseCase::new(AgentRepository::new());
    let agent = agents.create_agent(agent_request("student")).unwrap();
    let mut learning = LearningManagementUseCase::new(LearningSessionRepository::new());
    let session = learning
        .start_learning_session(&agents.agent_repo, session_request(agent.id))
        .unwrap();

    let mut metrics = LearningMetrics::empty();
    metrics.accuracy = Some(800_000);
    metrics.loss = Some(200_000);
    let progressed = learning.update_learning_progress(&session.id, metrics).unwrap();
    assert!(matches!(progressed.status, LearningSessionStatus::Training));
    assert_eq!(progressed.metrics.accuracy, Some(800_000));

    let mut final_metrics = LearningMetrics::empty();
    final_metrics.accuracy = Some(950_000);
    let completed = learning.complete_learning_session(&session.id, final_metrics).unwrap();
    assert!(matches!(completed.status, LearningSessionStatus::Completed));
    assert_eq!(completed.metrics.accuracy, Some(950_000));
    assert!(completed.completed_at.is_some());

    // A terminal session accepts no further progress.
    let more = LearningMetrics::empty();
    assert!(matches!(
        learning.update_learning_progress(&session.id, more),
        Err(Error::ValidationError(_))
    ));
}

#[test]
fn test_progress_on_missing_session_not_found() {
    let mut learning = LearningManagementUseCase::new(LearningSessionRepository::new());
    let ghost = LearningSessionId(77);
    assert!(matches!(
        learning.update_learning_progress(&ghost, LearningMetrics::empty()),
        Err(Error::NotFound(_))
    ));
    assert!(matches!(
        learning.complete_learning_session(&ghost, LearningMetrics::empty()),
        Err(Error::NotFound(_))
    ));
    assert!(matches!(learning.delete_learning_session(&ghost), Err(Error::NotFound(_))));
}

#[test]
fn test_save_model_snapshot() {
    let mut agents = AgentManagementUseCase::new(AgentRepository::new());
    let agent = agents.create_agent(agent_request("snapshotter")).unwrap();
    let mut learning = LearningManagementUseCase::new(LearningSessionRepository::new());
    let session = learning
        .start_learning_session(&agents.agent_repo, session_request(agent.id))
        .unwrap();

    let snapshot = ModelSnapshot {
        model_data: vec![1, 2, 3, 4],
        version: "v1".to_string(),
        checksum: "abc123".to_string(),
    };
    let updated = learning.save_model_snapshot(&session.id, snapshot).unwrap();
    let stored = updated.model_snapshot.unwrap();
    assert_eq!(stored.model_data, vec![1, 2, 3, 4]);
    assert_eq!(stored.version, "v1");
    assert_eq!(stored.checksum, "abc123");
}

#[test]
fn test_learning_statistics_counts_sum_to_total() {
    let mut agents = AgentManagementUseCase::new(AgentRepository::new());
    let agent = agents.create_agent(agent_request("counted")).unwrap();
    let mut learning = LearningManagementUseCase::new(LearningSessionRepository::new());

    let s1 = learning
        .start_learning_session(&agents.agent_repo, session_request(agent.id))
        .unwrap();
    let _s2 = learning
        .start_learning_session(&agents.agent_repo, session_request(agent.id))
        .unwrap();
    let s3 = learning
        .start_learning_session(&agents.agent_repo, session_request(agent.id))
        .unwrap();
    learning.update_learning_progress(&s1.id, LearningMetrics::empty()).unwrap();
    learning.complete_learning_session(&s3.id, LearningMetrics::empty()).unwrap();

    let stats = learning.get_learning_session_statistics().unwrap();
    assert_eq!(stats.total_sessions, 3);
    assert_eq!(stats.preparing_sessions, 1);
    assert_eq!(stats.training_sessions, 1);
    assert_eq!(stats.evaluating_sessions, 0);
    assert_eq!(stats.completed_sessions, 1);
    assert_eq!(stats.failed_sessions, 0);
    assert_eq!(
        stats.total_sessions,
        stats.preparing_sessions + stats.training_sessions + stats.evaluating_sessions
            + stats.completed_sessions + stats.failed_sessions,
    );

    let active = learning.get_active_learning_sessions().unwrap();
    assert_eq!(active.len(), 2);
}

#[test]
fn test_calculate_learning_metrics_exact() {
    let learning = LearningManagementUseCase::new(LearningSessionRepository::new());

    // Two pairs agree (differences 50_000 and 0), two do not.
    let predictions = vec![100_000u64, 500_000, 900_000, 250_000];
    let actuals = vec![150_000u64, 500_000, 700_000, 1_000_000];
    let metrics = learning.calculate_learning_metrics(&predictions, &actuals).unwrap();
    assert_eq!(metrics.accuracy, Some(500_000));
    assert_eq!(metrics.loss, Some(500_000));
    assert_eq!(metrics.precision, Some(500_000));
    assert_eq!(metrics.recall, Some(500_000));
    assert_eq!(metrics.f1_score, Some(500_000));
    assert!(metrics.custom_metrics.is_empty());

    // Empty inputs yield absent scores.
    let empty = learning.calculate_learning_metrics(&Vec::new(), &actuals).unwrap();
    assert!(empty.accuracy.is_none());
    assert!(empty.loss.is_none());
}

#[test]
fn test_evaluate_model_performance_bounds() {
    let mut agents = AgentManagementUseCase::new(AgentRepository::new());
    let agent = agents.create_agent(agent_request("evaluated")).unwrap();
    let mut learning = LearningManagementUseCase::new(LearningSessionRepository::new());
    let session = learning
        .start_learning_session(&agents.agent_repo, session_request(agent.id))
        .unwrap();

    let test_data = vec![training_item("{\"q\":1}"), training_item("{\"q\":2}")];
    let metrics = learning.evaluate_model_performance(&session.id, &test_data).unwrap();
    let accuracy = metrics.accuracy.unwrap();
    assert!(accuracy <= 1_000_000);
    assert!(metrics.loss.unwrap() <= 1_000_000);

    let ghost = LearningSessionId(404);
    assert!(matches!(
        learning.evaluate_model_performance(&ghost, &test_data),
        Err(Error::NotFound(_))
    ));
}

#[test]
fn test_learning_history_is_recent_first_and_truncated() {
    let mut agents = AgentManagementUseCase::new(AgentRepository::new());
    let agent = agents.create_agent(agent_request("historian")).unwrap();
    let mut learning = LearningManagementUseCase::new(LearningSessionRepository::new());

    for _ in 0..4 {
        learning
            .start_learning_session(&agents.agent_repo, session_request(agent.id))
            .unwrap();
    }

    let history = learning.get_learning_history(&agent.id, 3).unwrap();
    assert_eq!(history.len(), 3);
    for pair in history.windows(2) {
        assert!(pair[0].created_at >= pair[1].created_at);
    }

    let all = learning.get_learning_history(&agent.id, 100).unwrap();
    assert_eq!(all.len(), 4);
}

#[test]
fn test_find_sessions_by_type_and_status() {
    let mut agents = AgentManagementUseCase::new(AgentRepository::new());
    let agent = agents.create_agent(agent_request("typed")).unwrap();
    let mut learning = LearningManagementUseCase::new(LearningSessionRepository::new());

    let mut req = session_request(agent.id);
    req.session_type = LearningSessionType::Reinforcement;
    learning.start_learning_session(&agents.agent_repo, req).unwrap();
    learning
        .start_learning_session(&agents.agent_repo, session_request(agent.id))
        .unwrap();

    let reinforcement = learning
        .find_learning_sessions_by_type(&LearningSessionType::Reinforcement)
        .unwrap();
    assert_eq!(reinforcement.len(), 1);

    let preparing = learning
        .find_learning_sessions_by_status(&LearningSessionStatus::Preparing)
        .unwrap();
    assert_eq!(preparing.len(), 2);

    let by_agent = learning.find_learning_sessions_by_agent(&agent.id).unwrap();
    assert_eq!(by_agent.len(), 2);
    assert_eq!(learning.list_all_learning_sessions().unwrap().len(), 2);
    assert_eq!(
        learning
            .get_learning_session_count_by_status(&LearningSessionStatus::Preparing)
            .unwrap(),
        2,
    );
}
