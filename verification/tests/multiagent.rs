use drbot::multiagent::{
    Agent, AgentContext, AgentContribution, AgentMessage, AgentProvider, AgentSpecialization,
    AgentState, MessageType, MultiAgentError, SwarmCoordinator, TaskStatus, Vote,
};

struct MockProvider;

impl AgentProvider for MockProvider {
    fn execute(
        &self,
        agent: &Agent,
        task: &str,
        _context: &AgentContext,
    ) -> Result<AgentContribution, MultiAgentError> {
        let mut content = serde_json::Map::new();
        content.insert(
            "analysis".to_string(),
            serde_json::Value::String(format!("{} analyzed: {}", agent.name, task)),
        );
        Ok(AgentContribution {
            agent_id: agent.id.clone(),
            content: serde_json::Value::Object(content),
            confidence_permille: 850,
            reasoning: "Based on specialization".to_string(),
            timestamp_millis: 0,
        })
    }

    fn respond_to_message(
        &self,
        agent: &Agent,
        message: &AgentMessage,
    ) -> Result<AgentMessage, MultiAgentError> {
        Ok(AgentMessage {
            id: "reply".to_string(),
            from: agent.id.clone(),
            to: message.from.clone(),
            message_type: MessageType::Ack,
            content: serde_json::Value::Bool(true),
            timestamp_millis: 0,
            requires_ack: false,
        })
    }

    fn vote(&self, agent: &Agent, _proposal: &str, options: &[String]) -> Result<Vote, MultiAgentError> {
        Ok(Vote {
            agent_id: agent.id.clone(),
            choice: options.first().cloned().unwrap_or_default(),
            confidence_permille: 800,
            reasoning: "Best option".to_string(),
        })
    }

    fn synthesize(&self, contributions: &[AgentContribution]) -> Result<serde_json::Value, MultiAgentError> {
        Ok(serde_json::Value::from(contributions.len() as u64))
    }
}

struct FailingProvider;

impl AgentProvider for FailingProvider {
    fn execute(&self, _: &Agent, _: &str, _: &AgentContext) -> Result<AgentContribution, MultiAgentError> {
        Err(MultiAgentError::ProviderError("offline".to_string()))
    }

    fn respond_to_message(&self, _: &Agent, _: &AgentMessage) -> Result<AgentMessage, MultiAgentError> {
        Err(MultiAgentError::Timeout)
    }

    fn vote(&self, _: &Agent, _: &str, _: &[String]) -> Result<Vote, MultiAgentError> {
        Err(MultiAgentError::Timeout)
    }

    fn synthesize(&self, _: &[AgentContribution]) -> Result<serde_json::Value, MultiAgentError> {
        Err(MultiAgentError::Timeout)
    }
}

#[test]
fn test_spawn_agent() {
    let mut coordinator = SwarmCoordinator::new(MockProvider);
    let agent = coordinator.spawn_agent("TestCoder", AgentSpecialization::Coder).unwrap();
    assert_eq!(agent.name, "TestCoder");
    assert_eq!(agent.specialization, AgentSpecialization::Coder);
    assert!(agent.capabilities.contains(&"code_analysis".to_string()));
}

#[test]
fn test_create_task() {
    let mut coordinator = SwarmCoordinator::new(MockProvider);
    let task = coordinator
        .create_task(
            "Analyze code",
            vec![AgentSpecialization::Coder, AgentSpecialization::Critic],
            800,
        )
        .unwrap();
    assert_eq!(task.description, "Analyze code");
    assert_eq!(task.consensus_threshold_permille, 800);
    assert_eq!(task.required_specializations.len(), 2);
}

#[test]
fn test_execute_task() {
    let mut coordinator = SwarmCoordinator::new(MockProvider);
    coordinator.spawn_agent("Coder1", AgentSpecialization::Coder).unwrap();
    coordinator.spawn_agent("Critic1", AgentSpecialization::Critic).unwrap();
    let task = coordinator
        .create_task(
            "Review implementation",
            vec![AgentSpecialization::Coder, AgentSpecialization::Critic],
            700,
        )
        .unwrap();
    let result = coordinator.execute_task(&task.id).unwrap();
    assert!(result.consensus_level_permille > 0);
    assert_eq!(result.participants.len(), 2);
}

#[test]
fn test_message_broadcast() {
    let mut coordinator = SwarmCoordinator::new(MockProvider);
    let message = AgentMessage {
        id: "message-1".to_string(),
        from: "agent1".to_string(),
        to: "broadcast".to_string(),
        message_type: MessageType::Information,
        content: serde_json::Value::String("test".to_string()),
        timestamp_millis: 0,
        requires_ack: false,
    };
    coordinator.send_message(message).unwrap();
    let received = coordinator.take_messages();
    assert_eq!(received.len(), 1);
    assert_eq!(received[0].id, "message-1");
    assert!(coordinator.take_messages().is_empty());
}

#[test]
fn test_agent_capabilities() {
    let mut coordinator = SwarmCoordinator::new(MockProvider);
    let researcher = coordinator.spawn_agent("R1", AgentSpecialization::Researcher).unwrap();
    assert!(researcher.capabilities.contains(&"search".to_string()));
    assert!(researcher.capabilities.contains(&"fact_check".to_string()));
    let creative = coordinator.spawn_agent("C1", AgentSpecialization::Creative).unwrap();
    assert!(creative.capabilities.contains(&"ideation".to_string()));
    assert!(creative.capabilities.contains(&"brainstorm".to_string()));
}

#[test]
fn multiagent_capability_lists_exact() {
    let mut coordinator = SwarmCoordinator::new(MockProvider);
    let g = coordinator.spawn_agent_as("g", 5, "G", AgentSpecialization::Generalist);
    assert_eq!(g.capabilities, vec!["reasoning", "analysis", "synthesis"]);
    assert_eq!(g.created_at_millis, 5);
    assert_eq!(g.state, AgentState::Idle);
    let c = coordinator.spawn_agent_as("c", 6, "X", AgentSpecialization::Custom("juggling".to_string()));
    assert_eq!(c.capabilities, vec!["juggling"]);
    let qa = coordinator.spawn_agent_as("q", 7, "Q", AgentSpecialization::QA);
    assert_eq!(qa.capabilities, vec!["testing", "validation", "edge_cases", "quality_metrics"]);
    assert_eq!(coordinator.get_agents().len(), 3);
    assert_eq!(coordinator.get_agent("c").unwrap().name, "X");
    assert!(coordinator.get_agent("zzz").is_none());
}

#[test]
fn multiagent_execute_spawns_missing_specialist() {
    let mut coordinator = SwarmCoordinator::new(MockProvider);
    coordinator.spawn_agent_as("coder-1", 0, "Coder1", AgentSpecialization::Coder);
    let task = coordinator.create_task_as(
        "t1",
        "Plan and code",
        vec![AgentSpecialization::Coder, AgentSpecialization::Planner, AgentSpecialization::QA],
        500,
    );
    assert_eq!(task.status, TaskStatus::Pending);
    assert_eq!(task.min_agents, 2);
    let result = coordinator.execute_task("t1").unwrap();
    assert_eq!(result.participants.len(), 2);
    assert_eq!(result.participants[0], "coder-1");
    assert_eq!(result.consensus_level_permille, 850);
    let spawned = coordinator.get_agent(&result.participants[1]).unwrap();
    assert_eq!(spawned.name, "Planner-agent");
    assert_eq!(spawned.specialization, AgentSpecialization::Planner);
    let stored = coordinator.get_task("t1").unwrap();
    assert_eq!(stored.status, TaskStatus::Completed);
    assert_eq!(stored.contributions.len(), 2);
    assert_eq!(stored.result.unwrap().participants, result.participants);
}

#[test]
fn multiagent_routing_failure_when_too_few() {
    let mut coordinator = SwarmCoordinator::new(MockProvider);
    coordinator.create_task_as("t", "Solo", vec![AgentSpecialization::Custom("x".to_string())], 500);
    let err = coordinator.execute_task("t").unwrap_err();
    assert_eq!(err, MultiAgentError::RoutingFailed("Could not assign minimum 2 agents".to_string()));
    assert_eq!(err.message(), "Task routing failed: Could not assign minimum 2 agents");
    let spawned = coordinator.get_agents();
    assert_eq!(spawned.len(), 1);
    assert_eq!(spawned[0].name, "Custom(\"x\")-agent");
    assert_eq!(coordinator.get_task("t").unwrap().status, TaskStatus::Pending);
}

#[test]
fn multiagent_unknown_task_and_provider_failure() {
    let mut coordinator = SwarmCoordinator::new(FailingProvider);
    assert_eq!(
        coordinator.execute_task("missing").unwrap_err(),
        MultiAgentError::AgentNotFound("missing".to_string())
    );
    coordinator.spawn_agent_as("a", 0, "A", AgentSpecialization::Coder);
    coordinator.spawn_agent_as("b", 0, "B", AgentSpecialization::Critic);
    coordinator.create_task_as("t", "x", vec![AgentSpecialization::Coder, AgentSpecialization::Critic], 1);
    assert_eq!(
        coordinator.execute_task("t").unwrap_err(),
        MultiAgentError::ProviderError("offline".to_string())
    );
    assert!(coordinator.get_task("t").unwrap().result.is_none());
    assert_eq!(MultiAgentError::Timeout.message(), "Timeout waiting for agents");
}
