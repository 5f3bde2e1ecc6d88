use ai_agent_system::agent_repository::AgentRepository;
use ai_agent_system::domain::Agent;
use ai_agent_system::domain::AgentConfiguration;
use ai_agent_system::domain::AgentId;
use ai_agent_system::domain::AgentStatus;
use ai_agent_system::domain::AgentType;
use ai_agent_system::domain::Capability;
use ai_agent_system::domain::ExecutionConfiguration;
use ai_agent_system::domain::ModelConfiguration;
use ai_agent_system::domain::SecurityConfiguration;
use ai_agent_system::Error;

fn sample_configuration() -> AgentConfiguration {
    AgentConfiguration {
        model_config: ModelConfiguration {
            model_name: "test".to_string(),
            model_version: "1.0".to_string(),
            parameters: Vec::new(),
            context_window: 1000,
        },
        execution_config: ExecutionConfiguration {
            max_concurrent_tasks: 10,
            timeout_seconds: 30,
            retry_attempts: 3,
            memory_limit_mb: 100,
        },
        security_config: SecurityConfiguration {
            api_key_required: false,
            rate_limit: None,
            allowed_ips: Vec::new(),
            encryption_enabled: false,
        },
    }
}

fn capability(name: &str) -> Capability {
    Capability {
        name: name.to_string(),
        description: format!("{} capability", name),
        version: "1.0".to_string(),
        parameters: vec![("depth".to_string(), "3".to_string())],
    }
}

fn sample_agent(id: u128, name: &str, capabilities: Vec<Capability>, created_at: i64) -> Agent {
    Agent {
        id: AgentId(id),
        name: name.to_string(),
        description: "an agent".to_string(),
        agent_type: AgentType::Conversational,
        status: AgentStatus::Active,
        capabilities,
        configuration: sample_configuration(),
        metadata: vec![
            ("team".to_string(), "core".to_string()),
            ("tier".to_string(), "gold".to_string()),
        ],
        created_at,
        updated_at: created_at,
    }
}

/// Storing an aggregate and reading it back yields the same capability set
/// and the same metadata mapping.
#[test]
fn test_create_then_find_round_trip() {
    let mut repo = AgentRepository::new();
    let agent = sample_agent(1, "A1", vec![capability("summarize"), capability("search")], 100);
    repo.create(&agent).unwrap();

    let found = repo.find_by_id(&AgentId(1)).unwrap().unwrap();
    assert_eq!(found.name, "A1");
    assert_eq!(found.capabilities.len(), 2);
    assert_eq!(found.capabilities[0].name, "summarize");
    assert_eq!(found.capabilities[0].parameters, vec![("depth".to_string(), "3".to_string())]);
    assert_eq!(found.capabilities[1].name, "search");
    assert_eq!(
        found.metadata,
        vec![
            ("team".to_string(), "core".to_string()),
            ("tier".to_string(), "gold".to_string()),
        ],
    );
    assert_eq!(found.configuration.model_config.model_name, "test");
    assert_eq!(found.created_at, 100);
    assert_eq!(found.updated_at, 100);
}

/// Updating twice with the same aggregate value leaves the dependent
/// collections identical to a single update: no duplicate rows appear.
#[test]
fn test_update_twice_is_idempotent() {
    let mut repo = AgentRepository::new();
    let agent = sample_agent(7, "A7", vec![capability("plan")], 50);
    repo.create(&agent).unwrap();

    repo.update(&agent).unwrap();
    let once = repo.find_by_id(&AgentId(7)).unwrap().unwrap();
    repo.update(&agent).unwrap();
    let twice = repo.find_by_id(&AgentId(7)).unwrap().unwrap();

    assert_eq!(once.capabilities.len(), 1);
    assert_eq!(twice.capabilities.len(), 1);
    assert_eq!(once.capabilities[0].name, twice.capabilities[0].name);
    assert_eq!(once.metadata, twice.metadata);
}

/// Removing a capability atomically with a status change: the read sees
/// exactly the reduced set and the new status, never a mix.
#[test]
fn test_capability_removal_atomic_with_status_change() {
    let mut repo = AgentRepository::new();
    let agent = sample_agent(3, "A3", vec![capability("a"), capability("b")], 10);
    repo.create(&agent).unwrap();

    let mut reduced = sample_agent(3, "A3", vec![capability("a")], 10);
    reduced.status = AgentStatus::Maintenance;
    repo.update(&reduced).unwrap();

    let found = repo.find_by_id(&AgentId(3)).unwrap().unwrap();
    assert_eq!(found.capabilities.len(), 1);
    assert_eq!(found.capabilities[0].name, "a");
    assert!(matches!(found.status, AgentStatus::Maintenance));
}

/// Creating two agents with the same name has the second fail with
/// `Conflict` and leaves exactly one aggregate under that name.
#[test]
fn test_duplicate_name_conflicts() {
    let mut repo = AgentRepository::new();
    repo.create(&sample_agent(1, "same-name", Vec::new(), 10)).unwrap();
    let second = repo.create(&sample_agent(2, "same-name", Vec::new(), 20));
    assert!(matches!(second, Err(Error::Conflict(_))));

    assert_eq!(repo.count().unwrap(), 1);
    let found = repo.find_by_name("same-name").unwrap().unwrap();
    assert_eq!(found.id, AgentId(1));
}

/// A duplicate identifier is also a conflict.
#[test]
fn test_duplicate_id_conflicts() {
    let mut repo = AgentRepository::new();
    repo.create(&sample_agent(9, "first", Vec::new(), 10)).unwrap();
    let second = repo.create(&sample_agent(9, "second", Vec::new(), 20));
    assert!(matches!(second, Err(Error::Conflict(_))));
    assert_eq!(repo.count().unwrap(), 1);
}

/// `find_all` returns every aggregate ordered by creation time, newest
/// first, regardless of insertion order.
#[test]
fn test_find_all_orders_newest_first() {
    let mut repo = AgentRepository::new();
    repo.create(&sample_agent(1, "old", Vec::new(), 100)).unwrap();
    repo.create(&sample_agent(2, "newest", Vec::new(), 300)).unwrap();
    repo.create(&sample_agent(3, "middle", Vec::new(), 200)).unwrap();

    let all = repo.find_all().unwrap();
    assert_eq!(all.len(), 3);
    assert_eq!(all[0].name, "newest");
    assert_eq!(all[1].name, "middle");
    assert_eq!(all[2].name, "old");
}

/// Lookups by type and by status return full aggregates of the matching
/// agents only.
#[test]
fn test_find_by_type_and_status() {
    let mut repo = AgentRepository::new();
    let mut monitoring = sample_agent(1, "watcher", Vec::new(), 10);
    monitoring.agent_type = AgentType::Monitoring;
    monitoring.status = AgentStatus::Inactive;
    repo.create(&monitoring).unwrap();
    repo.create(&sample_agent(2, "talker", vec![capability("chat")], 20)).unwrap();

    let by_type = repo.find_by_type(&AgentType::Monitoring).unwrap();
    assert_eq!(by_type.len(), 1);
    assert_eq!(by_type[0].name, "watcher");

    let by_status = repo.find_by_status(&AgentStatus::Active).unwrap();
    assert_eq!(by_status.len(), 1);
    assert_eq!(by_status[0].name, "talker");
    assert_eq!(by_status[0].capabilities.len(), 1);

    let custom = repo.find_by_type(&AgentType::Custom("none".to_string())).unwrap();
    assert!(custom.is_empty());
}

/// Deleting an aggregate removes it whole; deleting an unknown identifier
/// is a no-op success.
#[test]
fn test_delete_whole_aggregate_and_missing_id() {
    let mut repo = AgentRepository::new();
    repo.create(&sample_agent(5, "gone-soon", vec![capability("x")], 10)).unwrap();
    repo.create(&sample_agent(6, "stays", vec![capability("y")], 20)).unwrap();

    repo.delete(&AgentId(5)).unwrap();
    assert!(repo.find_by_id(&AgentId(5)).unwrap().is_none());
    assert_eq!(repo.count().unwrap(), 1);

    // The surviving aggregate still reads back whole.
    let stays = repo.find_by_id(&AgentId(6)).unwrap().unwrap();
    assert_eq!(stays.capabilities.len(), 1);
    assert_eq!(stays.capabilities[0].name, "y");

    // Unknown identifiers delete silently.
    repo.delete(&AgentId(42)).unwrap();
    assert_eq!(repo.count().unwrap(), 1);

    // The freed name can be used again.
    repo.create(&sample_agent(7, "gone-soon", Vec::new(), 30)).unwrap();
    assert_eq!(repo.count().unwrap(), 2);
}

/// An update may rename an agent, but not onto another agent's name.
#[test]
fn test_update_rename_conflicts() {
    let mut repo = AgentRepository::new();
    repo.create(&sample_agent(1, "alpha", Vec::new(), 10)).unwrap();
    repo.create(&sample_agent(2, "beta", Vec::new(), 20)).unwrap();

    let renamed = sample_agent(2, "alpha", Vec::new(), 20);
    assert!(matches!(repo.update(&renamed), Err(Error::Conflict(_))));

    let fresh = sample_agent(2, "gamma", Vec::new(), 20);
    repo.update(&fresh).unwrap();
    assert!(repo.find_by_name("beta").unwrap().is_none());
    assert_eq!(repo.find_by_name("gamma").unwrap().unwrap().id, AgentId(2));
}

/// Updating an identifier that is not stored is `NotFound`.
#[test]
fn test_update_missing_id_not_found() {
    let mut repo = AgentRepository::new();
    let agent = sample_agent(11, "nobody", Vec::new(), 10);
    assert!(matches!(repo.update(&agent), Err(Error::NotFound(_))));
    assert_eq!(repo.count().unwrap(), 0);
}
