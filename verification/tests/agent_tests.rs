use ai_agent_system::agent_management::AgentManagementUseCase;
use ai_agent_system::agent_repository::AgentRepository;
use ai_agent_system::domain::AgentConfiguration;
use ai_agent_system::domain::AgentStatus;
use ai_agent_system::domain::AgentType;
use ai_agent_system::domain::Capability;
use ai_agent_system::domain::CreateAgentRequest;
use ai_agent_system::domain::ExecutionConfiguration;
use ai_agent_system::domain::ModelConfiguration;
use ai_agent_system::domain::SecurityConfiguration;
use ai_agent_system::Error;

fn sample_configuration() -> AgentConfiguration {
    AgentConfiguration {
        model_config: ModelConfiguration {
            model_name: "test".to_string(),
            model_version: "1.0".to_string(),
            parameters: Vec::new(),
            context_window: 1000,
        },
        execution_config: ExecutionConfiguration {
            max_concurrent_tasks: 10,
            timeout_seconds: 30,
            retry_attempts: 3,
            memory_limit_mb: 100,
        },
        security_config: SecurityConfiguration {
            api_key_required: false,
            rate_limit: None,
            allowed_ips: Vec::new(),
            encryption_enabled: false,
        },
    }
}

fn request(name: &str) -> CreateAgentRequest {
    CreateAgentRequest {
        name: name.to_string(),
        description: "A test agent".to_string(),
        agent_type: AgentType::Conversational,
        capabilities: Vec::new(),
        configuration: sample_configuration(),
        metadata: Vec::new(),
    }
}

fn text_generation() -> Capability {
    Capability {
        name: "text_generation".to_string(),
        description: "Generate text".to_string(),
        version: "1.0".to_string(),
        parameters: Vec::new(),
    }
}

#[test]
fn agent_management_test_test_create_agent() {
    let mut use_case = AgentManagementUseCase::new(AgentRepository::new());
    let result = use_case.create_agent(CreateAgentRequest {
        name: "Test Agent".to_string(),
        description: "A test agent".to_string(),
        agent_type: AgentType::Conversational,
        capabilities: Vec::new(),
        configuration: sample_configuration(),
        metadata: Vec::new(),
    });
    assert!(result.is_ok());

    let agent = result.unwrap();
    assert_eq!(agent.name, "Test Agent");
    assert_eq!(agent.description, "A test agent");
    assert!(matches!(agent.agent_type, AgentType::Conversational));
    assert!(matches!(agent.status, AgentStatus::Active));
}

#[test]
fn test_update_agent_status() {
    let mut use_case = AgentManagementUseCase::new(AgentRepository::new());
    let agent = use_case.create_agent(request("status-agent")).unwrap();

    let result = use_case.update_agent_status(&agent.id, AgentStatus::Inactive);
    assert!(result.is_ok());

    let updated = result.unwrap();
    assert_eq!(updated.id, agent.id);
    assert!(matches!(updated.status, AgentStatus::Inactive));
    assert_eq!(updated.name, agent.name);
    assert_eq!(updated.description, agent.description);
    assert_eq!(updated.created_at, agent.created_at);

    let stored = use_case.find_agent(&agent.id).unwrap().unwrap();
    assert!(matches!(stored.status, AgentStatus::Inactive));
}

#[test]
fn test_add_capability() {
    let mut use_case = AgentManagementUseCase::new(AgentRepository::new());
    let agent = use_case.create_agent(request("capable")).unwrap();

    let result = use_case.add_capability(&agent.id, text_generation());
    assert!(result.is_ok());

    let updated = result.unwrap();
    assert_eq!(updated.id, agent.id);
    assert_eq!(updated.capabilities.len(), 1);
    assert_eq!(updated.capabilities[0].name, "text_generation");
    assert_eq!(updated.name, agent.name);
    assert!(matches!(updated.status, AgentStatus::Active));

    // The same capability name cannot be added twice.
    let again = use_case.add_capability(&agent.id, text_generation());
    assert!(matches!(again, Err(Error::Conflict(_))));
}

#[test]
fn test_remove_capability() {
    let mut use_case = AgentManagementUseCase::new(AgentRepository::new());
    let agent = use_case.create_agent(request("forgetful")).unwrap();
    use_case.add_capability(&agent.id, text_generation()).unwrap();

    let result = use_case.remove_capability(&agent.id, "text_generation");
    assert!(result.is_ok());

    let updated = result.unwrap();
    assert_eq!(updated.id, agent.id);
    assert!(updated.capabilities.is_empty());

    // Removing a name the agent does not have changes nothing.
    let noop = use_case.remove_capability(&agent.id, "text_generation").unwrap();
    assert!(noop.capabilities.is_empty());
}

#[test]
fn test_update_agent_configuration() {
    let mut use_case = AgentManagementUseCase::new(AgentRepository::new());
    let agent = use_case.create_agent(request("configurable")).unwrap();

    let new_config = AgentConfiguration {
        model_config: ModelConfiguration {
            model_name: "updated".to_string(),
            model_version: "2.0".to_string(),
            parameters: Vec::new(),
            context_window: 2000,
        },
        execution_config: ExecutionConfiguration {
            max_concurrent_tasks: 20,
            timeout_seconds: 60,
            retry_attempts: 5,
            memory_limit_mb: 200,
        },
        security_config: SecurityConfiguration {
            api_key_required: true,
            rate_limit: Some(100),
            allowed_ips: vec!["127.0.0.1".to_string()],
            encryption_enabled: true,
        },
    };
    let result = use_case.update_agent_configuration(&agent.id, new_config);
    assert!(result.is_ok());

    let updated = result.unwrap();
    assert_eq!(updated.id, agent.id);
    assert_eq!(updated.configuration.model_config.model_name, "updated");
    assert_eq!(updated.configuration.execution_config.max_concurrent_tasks, 20);
    assert_eq!(updated.configuration.security_config.rate_limit, Some(100));

    let stored = use_case.find_agent(&agent.id).unwrap().unwrap();
    assert_eq!(stored.configuration.model_config.context_window, 2000);
}

#[test]
fn test_delete_agent() {
    let mut use_case = AgentManagementUseCase::new(AgentRepository::new());
    let agent = use_case.create_agent(request("doomed")).unwrap();

    let result = use_case.delete_agent(&agent.id);
    assert!(result.is_ok());
    assert!(use_case.find_agent(&agent.id).unwrap().is_none());

    // Deleting again reports the absence.
    assert!(matches!(use_case.delete_agent(&agent.id), Err(Error::NotFound(_))));
}

#[test]
fn agent_management_test_test_get_agent_statistics() {
    let use_case = AgentManagementUseCase::new(AgentRepository::new());
    let result = use_case.get_agent_statistics();
    assert!(result.is_ok());

    let stats = result.unwrap();
    assert_eq!(stats.total_agents, 0);
    assert_eq!(stats.active_agents, 0);
    assert_eq!(stats.inactive_agents, 0);
    assert_eq!(stats.training_agents, 0);
    assert_eq!(stats.error_agents, 0);
}

#[test]
fn test_agent_statistics_counts_by_status() {
    let mut use_case = AgentManagementUseCase::new(AgentRepository::new());
    let a = use_case.create_agent(request("a")).unwrap();
    let _b = use_case.create_agent(request("b")).unwrap();
    let c = use_case.create_agent(request("c")).unwrap();
    use_case.update_agent_status(&a.id, AgentStatus::Training).unwrap();
    use_case.update_agent_status(&c.id, AgentStatus::Error).unwrap();

    let stats = use_case.get_agent_statistics().unwrap();
    assert_eq!(stats.total_agents, 3);
    assert_eq!(stats.active_agents, 1);
    assert_eq!(stats.inactive_agents, 0);
    assert_eq!(stats.training_agents, 1);
    assert_eq!(stats.error_agents, 1);
}

#[test]
fn test_mutations_on_missing_agent_not_found() {
    let mut use_case = AgentManagementUseCase::new(AgentRepository::new());
    let ghost = ai_agent_system::domain::AgentId(424242);

    assert!(matches!(
        use_case.update_agent_status(&ghost, AgentStatus::Active),
        Err(Error::NotFound(_))
    ));
    assert!(matches!(
        use_case.add_capability(&ghost, text_generation()),
        Err(Error::NotFound(_))
    ));
    assert!(matches!(
        use_case.remove_capability(&ghost, "text_generation"),
        Err(Error::NotFound(_))
    ));
    assert!(matches!(
        use_case.update_agent_configuration(&ghost, sample_configuration()),
        Err(Error::NotFound(_))
    ));
    assert_eq!(use_case.get_agent_count().unwrap(), 0);
}

#[test]
fn test_create_agent_duplicate_name_conflicts() {
    let mut use_case = AgentManagementUseCase::new(AgentRepository::new());
    use_case.create_agent(request("singleton")).unwrap();
    let second = use_case.create_agent(request("singleton"));
    assert!(matches!(second, Err(Error::Conflict(_))));
    assert_eq!(use_case.get_agent_count().unwrap(), 1);
}

#[test]
fn test_find_agent_by_name_and_listing() {
    let mut use_case = AgentManagementUseCase::new(AgentRepository::new());
    let mut req = request("finder");
    req.agent_type = AgentType::Custom("bespoke".to_string());
    let agent = use_case.create_agent(req).unwrap();

    let by_name = use_case.find_agent_by_name("finder").unwrap().unwrap();
    assert_eq!(by_name.id, agent.id);
    assert!(use_case.find_agent_by_name("missing").unwrap().is_none());

    let customs = use_case
        .find_agents_by_type(&AgentType::Custom("bespoke".to_string()))
        .unwrap();
    assert_eq!(customs.len(), 1);

    let all = use_case.list_all_agents().unwrap();
    assert_eq!(all.len(), 1);
}
