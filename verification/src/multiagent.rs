//! A swarm of specialised agents: spawning agents, routing a task to the
//! first idle agent of each specialisation it needs, gathering their
//! contributions, and building a consensus from them.
//!
//! Confidences and consensus levels are given in thousandths.

use vstd::prelude::*;
use crate::clock::{elapsed_millis, instant_now, utc_now_millis};
use crate::ids::random_id_text;
use crate::json::json_clone;
use crate::mediator::{entry_names, find_name, names_of, put_name, put_named};
use crate::memory_graph::{copy_properties, copy_strings, lemma_put_others, str_views, value_of};
use crate::multimap::{distinct_keys, has_key, key_index, lemma_key_index_unique};
use crate::text::{decimal, push_decimal_u64, str_eq, string_push_str, to_owned_string};

verus! {

/// Errors of the swarm.
#[derive(Debug, Clone, PartialEq, Eq)]
pub enum MultiAgentError {
    AgentNotFound(String),
    CreationFailed(String),
    CommunicationFailed(String),
    ConsensusNotReached(String),
    RoutingFailed(String),
    Timeout,
    ProviderError(String),
}

impl MultiAgentError {
    /// The error's description.
    pub fn message(&self) -> (r: String)
        ensures
            r@ == match self {
                MultiAgentError::AgentNotFound(s) => "Agent not found: "@ + s@,
                MultiAgentError::CreationFailed(s) => "Agent creation failed: "@ + s@,
                MultiAgentError::CommunicationFailed(s) => "Communication failed: "@ + s@,
                MultiAgentError::ConsensusNotReached(s) => "Consensus not reached: "@ + s@,
                MultiAgentError::RoutingFailed(s) => "Task routing failed: "@ + s@,
                MultiAgentError::Timeout => "Timeout waiting for agents"@,
                MultiAgentError::ProviderError(s) => "Provider error: "@ + s@,
            },
    {
        match self {
            MultiAgentError::Timeout => to_owned_string("Timeout waiting for agents"),
            MultiAgentError::AgentNotFound(s) => {
                let mut out = to_owned_string("Agent not found: ");
                string_push_str(&mut out, s.as_str());
                out
            },
            MultiAgentError::CreationFailed(s) => {
                let mut out = to_owned_string("Agent creation failed: ");
                string_push_str(&mut out, s.as_str());
                out
            },
            MultiAgentError::CommunicationFailed(s) => {
                let mut out = to_owned_string("Communication failed: ");
                string_push_str(&mut out, s.as_str());
                out
            },
            MultiAgentError::ConsensusNotReached(s) => {
                let mut out = to_owned_string("Consensus not reached: ");
                string_push_str(&mut out, s.as_str());
                out
            },
            MultiAgentError::RoutingFailed(s) => {
                let mut out = to_owned_string("Task routing failed: ");
                string_push_str(&mut out, s.as_str());
                out
            },
            MultiAgentError::ProviderError(s) => {
                let mut out = to_owned_string("Provider error: ");
                string_push_str(&mut out, s.as_str());
                out
            },
        }
    }
}

/// What an agent is good at.
#[derive(Debug, Clone, PartialEq, Eq, Hash)]
pub enum AgentSpecialization {
    Generalist,
    Coder,
    Researcher,
    Critic,
    Creative,
    Planner,
    Analyst,
    QA,
    Custom(String),
}

/// `a` and `b` are the same specialisation.
pub open spec fn same_spec(a: AgentSpecialization, b: AgentSpecialization) -> bool {
    match a {
        AgentSpecialization::Custom(s) => b matches AgentSpecialization::Custom(t) && s@ == t@,
        _ => a == b,
    }
}

impl AgentSpecialization {
    /// A copy of the specialisation.
    pub fn duplicate(&self) -> (r: Self)
        ensures
            r == *self,
    {
        match self {
            AgentSpecialization::Generalist => AgentSpecialization::Generalist,
            AgentSpecialization::Coder => AgentSpecialization::Coder,
            AgentSpecialization::Researcher => AgentSpecialization::Researcher,
            AgentSpecialization::Critic => AgentSpecialization::Critic,
            AgentSpecialization::Creative => AgentSpecialization::Creative,
            AgentSpecialization::Planner => AgentSpecialization::Planner,
            AgentSpecialization::Analyst => AgentSpecialization::Analyst,
            AgentSpecialization::QA => AgentSpecialization::QA,
            AgentSpecialization::Custom(s) => AgentSpecialization::Custom(s.clone()),
        }
    }

    /// Whether `self` and `other` are the same specialisation.
    pub fn same_as(&self, other: &Self) -> (r: bool)
        ensures
            r == same_spec(*self, *other),
    {
        match (self, other) {
            (AgentSpecialization::Generalist, AgentSpecialization::Generalist) => true,
            (AgentSpecialization::Coder, AgentSpecialization::Coder) => true,
            (AgentSpecialization::Researcher, AgentSpecialization::Researcher) => true,
            (AgentSpecialization::Critic, AgentSpecialization::Critic) => true,
            (AgentSpecialization::Creative, AgentSpecialization::Creative) => true,
            (AgentSpecialization::Planner, AgentSpecialization::Planner) => true,
            (AgentSpecialization::Analyst, AgentSpecialization::Analyst) => true,
            (AgentSpecialization::QA, AgentSpecialization::QA) => true,
            (AgentSpecialization::Custom(a), AgentSpecialization::Custom(b)) => str_eq(a.as_str(), b.as_str()),
            _ => false,
        }
    }
}

fn dup_specs(v: &Vec<AgentSpecialization>) -> (r: Vec<AgentSpecialization>)
    ensures
        r@ == v@,
{
    let mut out: Vec<AgentSpecialization> = Vec::new();
    let mut i: usize = 0;
    while i < v.len()
        invariant
            i <= v@.len(),
            out@ == v@.take(i as int),
        decreases v@.len() - i,
    {
        out.push(v[i].duplicate());
        assert(v@.take(i as int + 1) =~= v@.take(i as int).push(v@[i as int]));
        i = i + 1;
    }
    assert(v@.take(i as int) =~= v@);
    out
}

/// The text `{:?}` gives the string `s`: quoted, with special characters
/// escaped.
pub uninterp spec fn debug_str(s: Seq<char>) -> Seq<char>;

/// `format!("{:?}", s)` on a string slice.
#[verifier::external_body]
pub(crate) fn debug_quoted(s: &str) -> (r: String)
    ensures
        r@ == debug_str(s@),
{
    format!("{:?}", s)
}

/// How a specialisation is written by `{:?}`.
pub open spec fn spec_label(s: AgentSpecialization) -> Seq<char> {
    match s {
        AgentSpecialization::Generalist => "Generalist"@,
        AgentSpecialization::Coder => "Coder"@,
        AgentSpecialization::Researcher => "Researcher"@,
        AgentSpecialization::Critic => "Critic"@,
        AgentSpecialization::Creative => "Creative"@,
        AgentSpecialization::Planner => "Planner"@,
        AgentSpecialization::Analyst => "Analyst"@,
        AgentSpecialization::QA => "QA"@,
        AgentSpecialization::Custom(n) => "Custom("@ + debug_str(n@) + ")"@,
    }
}

fn label(s: &AgentSpecialization) -> (r: String)
    ensures
        r@ == spec_label(*s),
{
    match s {
        AgentSpecialization::Generalist => to_owned_string("Generalist"),
        AgentSpecialization::Coder => to_owned_string("Coder"),
        AgentSpecialization::Researcher => to_owned_string("Researcher"),
        AgentSpecialization::Critic => to_owned_string("Critic"),
        AgentSpecialization::Creative => to_owned_string("Creative"),
        AgentSpecialization::Planner => to_owned_string("Planner"),
        AgentSpecialization::Analyst => to_owned_string("Analyst"),
        AgentSpecialization::QA => to_owned_string("QA"),
        AgentSpecialization::Custom(n) => {
            let mut out = to_owned_string("Custom(");
            let quoted = debug_quoted(n.as_str());
            string_push_str(&mut out, quoted.as_str());
            string_push_str(&mut out, ")");
            out
        },
    }
}

/// The capabilities an agent of specialisation `s` has.
pub open spec fn capability_names(s: AgentSpecialization) -> Seq<Seq<char>> {
    match s {
        AgentSpecialization::Generalist => seq!["reasoning"@, "analysis"@, "synthesis"@],
        AgentSpecialization::Coder => seq!["code_analysis"@, "code_generation"@, "debugging"@, "refactoring"@],
        AgentSpecialization::Researcher => seq!["search"@, "summarize"@, "fact_check"@, "cite"@],
        AgentSpecialization::Critic => seq!["review"@, "critique"@, "identify_flaws"@, "suggest_improvements"@],
        AgentSpecialization::Creative => seq!["ideation"@, "writing"@, "storytelling"@, "brainstorm"@],
        AgentSpecialization::Planner => seq!["planning"@, "scheduling"@, "resource_allocation"@, "risk_assessment"@],
        AgentSpecialization::Analyst => seq!["data_analysis"@, "visualization"@, "statistics"@, "trends"@],
        AgentSpecialization::QA => seq!["testing"@, "validation"@, "edge_cases"@, "quality_metrics"@],
        AgentSpecialization::Custom(n) => seq![n@],
    }
}

fn strings3(a: &str, b: &str, c: &str) -> (r: Vec<String>)
    ensures
        str_views(r@) == seq![a@, b@, c@],
{
    let r = vec![to_owned_string(a), to_owned_string(b), to_owned_string(c)];
    assert(str_views(r@) =~= seq![a@, b@, c@]);
    r
}

fn strings4(a: &str, b: &str, c: &str, d: &str) -> (r: Vec<String>)
    ensures
        str_views(r@) == seq![a@, b@, c@, d@],
{
    let r = vec![to_owned_string(a), to_owned_string(b), to_owned_string(c), to_owned_string(d)];
    assert(str_views(r@) =~= seq![a@, b@, c@, d@]);
    r
}

/// The capabilities an agent of specialisation `spec` has.
fn capabilities_for_specialization(spec: &AgentSpecialization) -> (r: Vec<String>)
    ensures
        str_views(r@) == capability_names(*spec),
{
    match spec {
        AgentSpecialization::Generalist => strings3("reasoning", "analysis", "synthesis"),
        AgentSpecialization::Coder => strings4("code_analysis", "code_generation", "debugging", "refactoring"),
        AgentSpecialization::Researcher => strings4("search", "summarize", "fact_check", "cite"),
        AgentSpecialization::Critic => strings4("review", "critique", "identify_flaws", "suggest_improvements"),
        AgentSpecialization::Creative => strings4("ideation", "writing", "storytelling", "brainstorm"),
        AgentSpecialization::Planner => strings4("planning", "scheduling", "resource_allocation", "risk_assessment"),
        AgentSpecialization::Analyst => strings4("data_analysis", "visualization", "statistics", "trends"),
        AgentSpecialization::QA => strings4("testing", "validation", "edge_cases", "quality_metrics"),
        AgentSpecialization::Custom(n) => {
            let r = vec![n.clone()];
            assert(str_views(r@) =~= seq![n@]);
            r
        },
    }
}

/// What an agent is doing.
#[derive(Debug, Clone, Copy, PartialEq, Eq, Structural)]
pub enum AgentState {
    Idle,
    Working,
    Waiting,
    Communicating,
    Completed,
    Error,
}

/// What an agent has done.
#[derive(Debug, Clone, Copy, PartialEq, Eq, Structural)]
pub struct AgentMetrics {
    pub tasks_completed: u32,
    /// In milliseconds.
    pub avg_task_duration_ms: u64,
    /// In thousandths.
    pub success_rate_permille: u32,
    pub messages_sent: u32,
    pub messages_received: u32,
}

impl Default for AgentMetrics {
    fn default() -> (r: Self)
        ensures
            r == (AgentMetrics {
                tasks_completed: 0,
                avg_task_duration_ms: 0,
                success_rate_permille: 0,
                messages_sent: 0,
                messages_received: 0,
            }),
    {
        AgentMetrics { tasks_completed: 0, avg_task_duration_ms: 0, success_rate_permille: 0, messages_sent: 0, messages_received: 0 }
    }
}

/// An agent of the swarm.
#[derive(Debug)]
pub struct Agent {
    pub id: String,
    pub name: String,
    pub specialization: AgentSpecialization,
    pub state: AgentState,
    pub capabilities: Vec<String>,
    pub current_task: Option<String>,
    pub metrics: AgentMetrics,
    /// In milliseconds since the Unix epoch.
    pub created_at_millis: i64,
}

/// `a` and `b` hold the same values.
pub open spec fn same_agent(a: Agent, b: Agent) -> bool {
    &&& a.id == b.id
    &&& a.name == b.name
    &&& a.specialization == b.specialization
    &&& a.state == b.state
    &&& a.capabilities@ == b.capabilities@
    &&& a.current_task == b.current_task
    &&& a.metrics == b.metrics
    &&& a.created_at_millis == b.created_at_millis
}

/// `a` and `b` hold agents that are the same, one by one.
pub open spec fn same_agents(a: Seq<Agent>, b: Seq<Agent>) -> bool {
    &&& a.len() == b.len()
    &&& forall|i: int| 0 <= i < a.len() ==> same_agent(#[trigger] a[i], b[i])
}

impl Agent {
    /// A copy of the agent.
    pub fn duplicate(&self) -> (r: Self)
        ensures
            same_agent(r, *self),
    {
        Agent {
            id: self.id.clone(),
            name: self.name.clone(),
            specialization: self.specialization.duplicate(),
            state: self.state,
            capabilities: copy_strings(&self.capabilities),
            current_task: match &self.current_task {
                Some(t) => Some(t.clone()),
                None => None,
            },
            metrics: self.metrics,
            created_at_millis: self.created_at_millis,
        }
    }
}

/// The kind of a message between agents.
#[derive(Debug, Clone, Copy, PartialEq, Eq, Structural)]
pub enum MessageType {
    TaskRequest,
    TaskResponse,
    Information,
    ConsultationRequest,
    ConsultationResponse,
    Vote,
    Ack,
    Error,
    StatusUpdate,
}

/// A message between agents.
#[derive(Debug)]
pub struct AgentMessage {
    pub id: String,
    pub from: String,
    /// The recipient, or `broadcast`.
    pub to: String,
    pub message_type: MessageType,
    pub content: serde_json::Value,
    /// In milliseconds since the Unix epoch.
    pub timestamp_millis: i64,
    pub requires_ack: bool,
}

/// The progress of a task.
#[derive(Debug, Clone, Copy, PartialEq, Eq, Structural)]
pub enum TaskStatus {
    Pending,
    Assigning,
    InProgress,
    ConsensusBuilding,
    Completed,
    Failed,
}

/// What an agent contributed to a task.
#[derive(Debug)]
pub struct AgentContribution {
    pub agent_id: String,
    pub content: serde_json::Value,
    /// In thousandths.
    pub confidence_permille: u32,
    pub reasoning: String,
    /// In milliseconds since the Unix epoch.
    pub timestamp_millis: i64,
}

impl AgentContribution {
    /// A copy of the contribution.
    pub fn duplicate(&self) -> (r: Self)
        ensures
            r == *self,
    {
        AgentContribution {
            agent_id: self.agent_id.clone(),
            content: json_clone(&self.content),
            confidence_permille: self.confidence_permille,
            reasoning: self.reasoning.clone(),
            timestamp_millis: self.timestamp_millis,
        }
    }
}

/// An agent that disagreed with the result.
#[derive(Debug)]
pub struct DissentingOpinion {
    pub agent_id: String,
    pub opinion: String,
    pub reasoning: String,
}

/// What a task came to.
#[derive(Debug)]
pub struct SwarmResult {
    pub content: serde_json::Value,
    /// The mean confidence of the contributions, in thousandths.
    pub consensus_level_permille: u32,
    pub participants: Vec<String>,
    pub dissent: Vec<DissentingOpinion>,
    pub execution_time_ms: u64,
}

/// `a` and `b` hold the same values.
pub open spec fn same_result(a: SwarmResult, b: SwarmResult) -> bool {
    &&& a.content == b.content
    &&& a.consensus_level_permille == b.consensus_level_permille
    &&& a.participants@ == b.participants@
    &&& a.dissent@ == b.dissent@
    &&& a.execution_time_ms == b.execution_time_ms
}

impl SwarmResult {
    /// A copy of the result.
    pub fn duplicate(&self) -> (r: Self)
        ensures
            same_result(r, *self),
    {
        let mut dissent: Vec<DissentingOpinion> = Vec::new();
        let mut i: usize = 0;
        while i < self.dissent.len()
            invariant
                i <= self.dissent@.len(),
                dissent@ == self.dissent@.take(i as int),
            decreases self.dissent@.len() - i,
        {
            let d = &self.dissent[i];
            dissent.push(DissentingOpinion { agent_id: d.agent_id.clone(), opinion: d.opinion.clone(), reasoning: d.reasoning.clone() });
            assert(self.dissent@.take(i as int + 1) =~= self.dissent@.take(i as int).push(self.dissent@[i as int]));
            i = i + 1;
        }
        assert(self.dissent@.take(i as int) =~= self.dissent@);
        SwarmResult {
            content: json_clone(&self.content),
            consensus_level_permille: self.consensus_level_permille,
            participants: copy_strings(&self.participants),
            dissent,
            execution_time_ms: self.execution_time_ms,
        }
    }
}

/// A task for the swarm.
#[derive(Debug)]
pub struct SwarmTask {
    pub id: String,
    pub description: String,
    pub required_specializations: Vec<AgentSpecialization>,
    pub min_agents: u32,
    /// In thousandths.
    pub consensus_threshold_permille: u32,
    /// Named parameters, no name twice.
    pub parameters: Vec<(String, serde_json::Value)>,
    pub status: TaskStatus,
    pub assigned_agents: Vec<String>,
    /// Contributions by agent, no agent twice.
    pub contributions: Vec<(String, AgentContribution)>,
    pub result: Option<SwarmResult>,
}

/// `a` and `b` hold the same values.
pub open spec fn same_task(a: SwarmTask, b: SwarmTask) -> bool {
    &&& a.id == b.id
    &&& a.description == b.description
    &&& a.required_specializations@ == b.required_specializations@
    &&& a.min_agents == b.min_agents
    &&& a.consensus_threshold_permille == b.consensus_threshold_permille
    &&& a.parameters@ == b.parameters@
    &&& a.status == b.status
    &&& a.assigned_agents@ == b.assigned_agents@
    &&& a.contributions@ == b.contributions@
    &&& match a.result {
        Some(x) => b.result matches Some(y) && same_result(x, y),
        None => b.result is None,
    }
}

fn copy_contributions(v: &Vec<(String, AgentContribution)>) -> (r: Vec<(String, AgentContribution)>)
    ensures
        r@ == v@,
{
    let mut out: Vec<(String, AgentContribution)> = Vec::new();
    let mut i: usize = 0;
    while i < v.len()
        invariant
            i <= v@.len(),
            out@ == v@.take(i as int),
        decreases v@.len() - i,
    {
        out.push((v[i].0.clone(), v[i].1.duplicate()));
        assert(v@.take(i as int + 1) =~= v@.take(i as int).push(v@[i as int]));
        i = i + 1;
    }
    assert(v@.take(i as int) =~= v@);
    out
}

impl SwarmTask {
    /// A copy of the task.
    pub fn duplicate(&self) -> (r: Self)
        ensures
            same_task(r, *self),
    {
        SwarmTask {
            id: self.id.clone(),
            description: self.description.clone(),
            required_specializations: dup_specs(&self.required_specializations),
            min_agents: self.min_agents,
            consensus_threshold_permille: self.consensus_threshold_permille,
            parameters: copy_properties(&self.parameters),
            status: self.status,
            assigned_agents: copy_strings(&self.assigned_agents),
            contributions: copy_contributions(&self.contributions),
            result: match &self.result {
                Some(x) => Some(x.duplicate()),
                None => None,
            },
        }
    }
}

/// Limits on an agent's work.
#[derive(Debug)]
pub struct AgentConstraints {
    pub max_tokens: u32,
    pub time_limit_secs: u32,
    pub required_tools: Vec<String>,
}

impl Default for AgentConstraints {
    fn default() -> (r: Self)
        ensures
            r.max_tokens == 4096,
            r.time_limit_secs == 60,
            r.required_tools@.len() == 0,
    {
        AgentConstraints { max_tokens: 4096, time_limit_secs: 60, required_tools: Vec::new() }
    }
}

/// What an agent is given to work on.
#[derive(Debug)]
pub struct AgentContext {
    pub task: String,
    pub tools: Vec<String>,
    /// What other agents shared, by name, no name twice.
    pub shared_context: Vec<(String, serde_json::Value)>,
    pub constraints: AgentConstraints,
}

/// An agent's vote.
#[derive(Debug)]
pub struct Vote {
    pub agent_id: String,
    pub choice: String,
    /// In thousandths.
    pub confidence_permille: u32,
    pub reasoning: String,
}

/// Where agents do their work; the swarm's users implement it.
pub trait AgentProvider {
    /// Work on `task` as `agent`.
    fn execute(&self, agent: &Agent, task: &str, context: &AgentContext) -> Result<AgentContribution, MultiAgentError>;

    /// Answer `message` as `agent`.
    fn respond_to_message(&self, agent: &Agent, message: &AgentMessage) -> Result<AgentMessage, MultiAgentError>;

    /// Vote on `proposal` among `options` as `agent`.
    fn vote(&self, agent: &Agent, proposal: &str, options: &[String]) -> Result<Vote, MultiAgentError>;

    /// Combine the contributions into one result.
    fn synthesize(&self, contributions: &[AgentContribution]) -> Result<serde_json::Value, MultiAgentError>;
}

/// `a` is an idle agent of specialisation `s`.
pub open spec fn idle_of(a: Agent, s: AgentSpecialization) -> bool {
    same_spec(a.specialization, s) && a.state == AgentState::Idle
}

/// The position of the first idle agent of specialisation `s`.
pub open spec fn first_idle(es: Seq<(String, Agent)>, s: AgentSpecialization) -> Option<int>
    decreases es.len(),
{
    if es.len() == 0 {
        None
    } else {
        match first_idle(es.drop_last(), s) {
            Some(i) => Some(i),
            None => if idle_of(es.last().1, s) { Some(es.len() - 1) } else { None },
        }
    }
}

proof fn lemma_first_idle(es: Seq<(String, Agent)>, s: AgentSpecialization)
    ensures
        match first_idle(es, s) {
            Some(i) => 0 <= i < es.len() && idle_of(es[i].1, s) && forall|j: int| 0 <= j < i ==> !idle_of(#[trigger] es[j].1, s),
            None => forall|j: int| 0 <= j < es.len() ==> !idle_of(#[trigger] es[j].1, s),
        },
    decreases es.len(),
{
    if es.len() > 0 {
        let t = es.drop_last();
        lemma_first_idle(t, s);
        assert forall|j: int| 0 <= j < t.len() implies #[trigger] t[j] == es[j] by {}
        match first_idle(t, s) {
            Some(i) => {
                assert(t[i] == es[i]);
                assert forall|j: int| 0 <= j < i implies !idle_of(#[trigger] es[j].1, s) by {
                    assert(t[j] == es[j]);
                }
            },
            None => {
                assert forall|j: int| 0 <= j < es.len() - 1 implies !idle_of(#[trigger] es[j].1, s) by {
                    assert(t[j] == es[j]);
                }
            },
        }
    }
}

/// The position of the first specialisation of `req` that no idle agent
/// has.
pub open spec fn first_unmatched(es: Seq<(String, Agent)>, req: Seq<AgentSpecialization>) -> Option<int>
    decreases req.len(),
{
    if req.len() == 0 {
        None
    } else {
        match first_unmatched(es, req.drop_last()) {
            Some(k) => Some(k),
            None => if first_idle(es, req.last()) is None { Some(req.len() - 1) } else { None },
        }
    }
}

proof fn lemma_first_unmatched(es: Seq<(String, Agent)>, req: Seq<AgentSpecialization>)
    ensures
        match first_unmatched(es, req) {
            Some(k) => 0 <= k < req.len() && first_idle(es, req[k]) is None
                && forall|j: int| 0 <= j < k ==> first_idle(es, #[trigger] req[j]) is Some,
            None => forall|j: int| 0 <= j < req.len() ==> first_idle(es, #[trigger] req[j]) is Some,
        },
    decreases req.len(),
{
    if req.len() > 0 {
        let t = req.drop_last();
        lemma_first_unmatched(es, t);
        assert forall|j: int| 0 <= j < t.len() implies #[trigger] t[j] == req[j] by {}
        match first_unmatched(es, t) {
            Some(k) => {
                assert(t[k] == req[k]);
                assert forall|j: int| 0 <= j < k implies first_idle(es, #[trigger] req[j]) is Some by {
                    assert(t[j] == req[j]);
                }
            },
            None => {
                assert forall|j: int| 0 <= j < req.len() - 1 implies first_idle(es, #[trigger] req[j]) is Some by {
                    assert(t[j] == req[j]);
                }
            },
        }
    }
}

/// Each agent a task is routed to among those found is an idle agent of
/// the specialisation it was matched to, and a stored one.
pub proof fn lemma_matched_are_idle(es: Seq<(String, Agent)>, req: Seq<AgentSpecialization>)
    ensures
        forall|j: int| 0 <= j < matched_count(es, req) ==> {
            let i = first_idle(es, #[trigger] req[j])->0;
            &&& 0 <= i < es.len()
            &&& idle_of(es[i].1, req[j])
            &&& matched_ids(es, req)[j] == es[i].1.id@
        },
{
    lemma_first_unmatched(es, req);
    assert forall|j: int| 0 <= j < matched_count(es, req) implies {
        let i = first_idle(es, #[trigger] req[j])->0;
        &&& 0 <= i < es.len()
        &&& idle_of(es[i].1, req[j])
        &&& matched_ids(es, req)[j] == es[i].1.id@
    } by {
        lemma_first_idle(es, req[j]);
    }
}

/// How many of `req` are matched to idle agents: all, or those before the
/// first one no idle agent has.
pub open spec fn matched_count(es: Seq<(String, Agent)>, req: Seq<AgentSpecialization>) -> int {
    match first_unmatched(es, req) {
        Some(k) => k,
        None => req.len() as int,
    }
}

/// The identifiers of the idle agents matched to `req`, in order.
pub open spec fn matched_ids(es: Seq<(String, Agent)>, req: Seq<AgentSpecialization>) -> Seq<Seq<char>> {
    Seq::new(matched_count(es, req) as nat, |j: int| es[first_idle(es, req[j])->0].1.id@)
}

/// How many agents a task needing `req` is routed to: the matched ones, and
/// one spawned for the first unmatched specialisation, if any.
pub open spec fn routed_count(es: Seq<(String, Agent)>, req: Seq<AgentSpecialization>) -> int {
    matched_count(es, req) + if first_unmatched(es, req) is Some { 1int } else { 0int }
}

/// The text of a routing failure for `min` agents.
pub open spec fn routing_text(min: u32) -> Seq<char> {
    "Could not assign minimum "@ + decimal(min as nat) + " agents"@
}

/// `a` is an agent just spawned as `name` with specialisation `s`, under
/// the identifier `id`, at `now`.
pub open spec fn fresh_agent(a: Agent, id: Seq<char>, name: Seq<char>, s: AgentSpecialization, now: i64) -> bool {
    &&& a.id@ == id
    &&& a.name@ == name
    &&& a.specialization == s
    &&& a.state == AgentState::Idle
    &&& str_views(a.capabilities@) == capability_names(s)
    &&& a.current_task is None
    &&& a.metrics == (AgentMetrics {
        tasks_completed: 0,
        avg_task_duration_ms: 0,
        success_rate_permille: 0,
        messages_sent: 0,
        messages_received: 0,
    })
    &&& a.created_at_millis == now
}

/// `t` is a task just created under `id`, described by `description`,
/// needing `req`, with consensus threshold `threshold`.
pub open spec fn fresh_task(t: SwarmTask, id: Seq<char>, description: Seq<char>, req: Seq<AgentSpecialization>, threshold: u32) -> bool {
    &&& t.id@ == id
    &&& t.description@ == description
    &&& t.required_specializations@ == req
    &&& t.min_agents == 2
    &&& t.consensus_threshold_permille == threshold
    &&& t.parameters@.len() == 0
    &&& t.status == TaskStatus::Pending
    &&& t.assigned_agents@.len() == 0
    &&& t.contributions@.len() == 0
    &&& t.result is None
}

/// The names after putting each of `ids` in turn.
pub open spec fn put_all(ns: Seq<Seq<char>>, ids: Seq<Seq<char>>) -> Seq<Seq<char>>
    decreases ids.len(),
{
    if ids.len() == 0 {
        ns
    } else {
        put_name(put_all(ns, ids.drop_last()), ids.last())
    }
}

/// The sum of the confidences of the contributions.
pub open spec fn confidence_sum(cs: Seq<(String, AgentContribution)>) -> int
    decreases cs.len(),
{
    if cs.len() == 0 {
        0
    } else {
        confidence_sum(cs.drop_last()) + cs.last().1.confidence_permille
    }
}

/// The mean confidence of the contributions, rounded down; zero for none.
pub open spec fn mean_confidence(cs: Seq<(String, AgentContribution)>) -> int {
    if cs.len() == 0 {
        0
    } else {
        confidence_sum(cs) / (cs.len() as int)
    }
}

fn average_confidence(cs: &Vec<(String, AgentContribution)>) -> (r: u32)
    ensures
        r == mean_confidence(cs@),
{
    let mut sum: u128 = 0;
    let mut i: usize = 0;
    while i < cs.len()
        invariant
            i <= cs@.len(),
            sum == confidence_sum(cs@.take(i as int)),
            sum <= i * 4294967295,
        decreases cs@.len() - i,
    {
        assert(cs@.take(i as int + 1).drop_last() =~= cs@.take(i as int));
        sum = sum + cs[i].1.confidence_permille as u128;
        i = i + 1;
    }
    assert(cs@.take(i as int) =~= cs@);
    if i == 0 {
        0
    } else {
        let n = i as u128;
        assert(sum / n <= 4294967295) by (nonlinear_arith)
            requires
                sum <= n * 4294967295,
                n > 0,
        ;
        (sum / n) as u32
    }
}

/// `e` reports that nothing is known under `text`.
pub open spec fn agent_not_found(e: MultiAgentError, text: Seq<char>) -> bool {
    e matches MultiAgentError::AgentNotFound(s) && s@ == text
}

/// `e` reports a routing failure with `text`.
pub open spec fn routing_failed(e: MultiAgentError, text: Seq<char>) -> bool {
    e matches MultiAgentError::RoutingFailed(s) && s@ == text
}

/// Keys and the identifiers of the values under them agree.
pub open spec fn keyed_by_agent_id(es: Seq<(String, Agent)>) -> bool {
    forall|i: int| 0 <= i < es.len() ==> (#[trigger] es[i]).0@ == es[i].1.id@
}

/// Keys and the identifiers of the values under them agree.
pub open spec fn keyed_by_task_id(es: Seq<(String, SwarmTask)>) -> bool {
    forall|i: int| 0 <= i < es.len() ==> (#[trigger] es[i]).0@ == es[i].1.id@
}

/// `after` is `before` with an idle agent of specialisation `s`, named
/// after it, spawned under `id`.
pub open spec fn spawned_into(after: Seq<(String, Agent)>, before: Seq<(String, Agent)>, id: Seq<char>, s: AgentSpecialization) -> bool {
    &&& names_of(after) == put_name(names_of(before), id)
    &&& value_of(after, id) is Some
    &&& idle_of(value_of(after, id)->0, s)
    &&& value_of(after, id)->0.name@ == spec_label(s) + "-agent"@
    &&& forall|k: Seq<char>| k != id ==> #[trigger] value_of(after, k) == value_of(before, k)
}

/// The identifiers of the agents, in order.
pub open spec fn agent_ids(a: Seq<Agent>) -> Seq<Seq<char>> {
    a.map_values(|x: Agent| x.id@)
}

/// `t` is the task `before` run to completion with result `res`, routed
/// among the agents `es`: the matched agents first, in order; each routed
/// agent contributed once; the consensus level is their mean confidence.
pub open spec fn completed(t: SwarmTask, before: SwarmTask, es: Seq<(String, Agent)>, res: SwarmResult) -> bool {
    let req = before.required_specializations@;
    &&& t.status == TaskStatus::Completed
    &&& t.id == before.id
    &&& t.description == before.description
    &&& t.required_specializations@ == req
    &&& t.min_agents == before.min_agents
    &&& t.consensus_threshold_permille == before.consensus_threshold_permille
    &&& t.parameters@ == before.parameters@
    &&& str_views(t.assigned_agents@).len() == routed_count(es, req)
    &&& routed_count(es, req) >= before.min_agents
    &&& str_views(t.assigned_agents@).take(matched_count(es, req)) == matched_ids(es, req)
    &&& names_of(t.contributions@) == put_all(Seq::empty(), str_views(t.assigned_agents@))
    &&& t.contributions@.len() > 0
    &&& t.result is Some
    &&& same_result(t.result->0, res)
    &&& res.participants@ == t.assigned_agents@
    &&& res.dissent@.len() == 0
    &&& res.consensus_level_permille == mean_confidence(t.contributions@)
}

/// `after` differs from `before` at most in the value under `id`.
pub open spec fn only_task(after: Seq<(String, SwarmTask)>, before: Seq<(String, SwarmTask)>, id: Seq<char>) -> bool {
    &&& names_of(after) == names_of(before)
    &&& forall|k: Seq<char>| k != id ==> #[trigger] value_of(after, k) == value_of(before, k)
}

/// The coordinator of a swarm.
pub struct SwarmCoordinator<P: AgentProvider> {
    provider: P,
    agents: Vec<(String, Agent)>,
    tasks: Vec<(String, SwarmTask)>,
    messages: Vec<AgentMessage>,
}

impl<P: AgentProvider> SwarmCoordinator<P> {
    /// The agents, by identifier.
    pub closed spec fn agents_view(&self) -> Seq<(String, Agent)> {
        self.agents@
    }

    /// The tasks, by identifier.
    pub closed spec fn tasks_view(&self) -> Seq<(String, SwarmTask)> {
        self.tasks@
    }

    /// The messages sent and not yet taken, oldest first.
    pub closed spec fn messages_view(&self) -> Seq<AgentMessage> {
        self.messages@
    }

    /// No identifier twice, each stored under its own identifier.
    pub open spec fn wf(&self) -> bool {
        &&& distinct_keys(entry_names(self.agents_view()))
        &&& distinct_keys(entry_names(self.tasks_view()))
        &&& keyed_by_agent_id(self.agents_view())
        &&& keyed_by_task_id(self.tasks_view())
    }

    /// A coordinator working through `provider`, with no agent, task or
    /// message yet.
    pub fn new(provider: P) -> (r: Self)
        ensures
            r.wf(),
            r.agents_view().len() == 0,
            r.tasks_view().len() == 0,
            r.messages_view().len() == 0,
    {
        SwarmCoordinator { provider, agents: Vec::new(), tasks: Vec::new(), messages: Vec::new() }
    }

    /// Spawn an idle agent `name` of specialisation `specialization` under
    /// the identifier `id` at `now_millis`, stored under its identifier.
    pub fn spawn_agent_as(&mut self, id: &str, now_millis: i64, name: &str, specialization: AgentSpecialization) -> (r: Agent)
        requires
            old(self).wf(),
        ensures
            final(self).wf(),
            fresh_agent(r, id@, name@, specialization, now_millis),
            names_of(final(self).agents_view()) == put_name(names_of(old(self).agents_view()), id@),
            value_of(final(self).agents_view(), id@) is Some,
            same_agent(value_of(final(self).agents_view(), id@)->0, r),
            forall|k: Seq<char>| k != id@ ==> #[trigger] value_of(final(self).agents_view(), k) == value_of(old(self).agents_view(), k),
            final(self).tasks_view() == old(self).tasks_view(),
            final(self).messages_view() == old(self).messages_view(),
    {
        let capabilities = capabilities_for_specialization(&specialization);
        let stored = Agent {
            id: to_owned_string(id),
            name: to_owned_string(name),
            specialization,
            state: AgentState::Idle,
            capabilities,
            current_task: None,
            metrics: AgentMetrics::default(),
            created_at_millis: now_millis,
        };
        let copy = stored.duplicate();
        let ghost before = self.agents@;
        put_named(&mut self.agents, id, stored);
        proof {
            lemma_put_others(before, self.agents@, id@);
            let t = self.agents@;
            let ix = key_index(entry_names(t), id@);
            assert(entry_names(t)[ix].0 == id@);
            assert forall|i: int| 0 <= i < t.len() implies (#[trigger] t[i]).0@ == t[i].1.id@ by {
                if i != ix {
                    assert(entry_names(t)[i].0 == t[i].0@);
                    if t[i].0@ == id@ {
                        assert(entry_names(t)[i].0 == entry_names(t)[ix].0);
                    }
                    let k = t[i].0@;
                    lemma_key_index_unique(entry_names(t), i);
                    assert(value_of(t, k) == Some(t[i].1));
                    assert(has_key(entry_names(before), k));
                    let j = key_index(entry_names(before), k);
                    assert(entry_names(before)[j].0 == k);
                    assert(before[j].0@ == k);
                    lemma_key_index_unique(entry_names(before), j);
                }
            }
        }
        copy
    }

    /// Spawn an idle agent `name` of specialisation `specialization` under
    /// a fresh random identifier, now.
    pub fn spawn_agent(&mut self, name: &str, specialization: AgentSpecialization) -> (r: Result<Agent, MultiAgentError>)
        requires
            old(self).wf(),
        ensures
            final(self).wf(),
            r is Ok,
            r->Ok_0.id@.len() == 36,
            fresh_agent(r->Ok_0, r->Ok_0.id@, name@, specialization, r->Ok_0.created_at_millis),
            names_of(final(self).agents_view()) == put_name(names_of(old(self).agents_view()), r->Ok_0.id@),
            value_of(final(self).agents_view(), r->Ok_0.id@) is Some,
            same_agent(value_of(final(self).agents_view(), r->Ok_0.id@)->0, r->Ok_0),
            forall|k: Seq<char>| k != r->Ok_0.id@ ==> #[trigger] value_of(final(self).agents_view(), k) == value_of(old(self).agents_view(), k),
            final(self).tasks_view() == old(self).tasks_view(),
            final(self).messages_view() == old(self).messages_view(),
    {
        let id = random_id_text();
        let now = utc_now_millis();
        Ok(self.spawn_agent_as(id.as_str(), now, name, specialization))
    }

    /// Create a pending task under the identifier `id`, described by
    /// `description`, needing `required_specializations`, with consensus
    /// threshold `consensus_threshold_permille`, stored under its identifier.
    pub fn create_task_as(&mut self, id: &str, description: &str, required_specializations: Vec<AgentSpecialization>, consensus_threshold_permille: u32) -> (r: SwarmTask)
        requires
            old(self).wf(),
        ensures
            final(self).wf(),
            fresh_task(r, id@, description@, required_specializations@, consensus_threshold_permille),
            names_of(final(self).tasks_view()) == put_name(names_of(old(self).tasks_view()), id@),
            value_of(final(self).tasks_view(), id@) is Some,
            same_task(value_of(final(self).tasks_view(), id@)->0, r),
            forall|k: Seq<char>| k != id@ ==> #[trigger] value_of(final(self).tasks_view(), k) == value_of(old(self).tasks_view(), k),
            final(self).agents_view() == old(self).agents_view(),
            final(self).messages_view() == old(self).messages_view(),
    {
        let stored = SwarmTask {
            id: to_owned_string(id),
            description: to_owned_string(description),
            required_specializations,
            min_agents: 2,
            consensus_threshold_permille,
            parameters: Vec::new(),
            status: TaskStatus::Pending,
            assigned_agents: Vec::new(),
            contributions: Vec::new(),
            result: None,
        };
        let copy = stored.duplicate();
        let ghost before = self.tasks@;
        self.put_task(stored);
        copy
    }

    fn put_task(&mut self, task: SwarmTask)
        requires
            old(self).wf(),
        ensures
            final(self).wf(),
            names_of(final(self).tasks_view()) == put_name(names_of(old(self).tasks_view()), task.id@),
            value_of(final(self).tasks_view(), task.id@) == Some(task),
            forall|k: Seq<char>| k != task.id@ ==> #[trigger] value_of(final(self).tasks_view(), k) == value_of(old(self).tasks_view(), k),
            final(self).agents_view() == old(self).agents_view(),
            final(self).messages_view() == old(self).messages_view(),
    {
        let key = task.id.clone();
        let ghost before = self.tasks@;
        let ghost id = task.id@;
        put_named(&mut self.tasks, key.as_str(), task);
        proof {
            lemma_put_others(before, self.tasks@, id);
            let t = self.tasks@;
            let ix = key_index(entry_names(t), id);
            assert(entry_names(t)[ix].0 == id);
            assert forall|i: int| 0 <= i < t.len() implies (#[trigger] t[i]).0@ == t[i].1.id@ by {
                if i != ix {
                    assert(entry_names(t)[i].0 == t[i].0@);
                    if t[i].0@ == id {
                        assert(entry_names(t)[i].0 == entry_names(t)[ix].0);
                    }
                    let k = t[i].0@;
                    lemma_key_index_unique(entry_names(t), i);
                    assert(value_of(t, k) == Some(t[i].1));
                    assert(has_key(entry_names(before), k));
                    let j = key_index(entry_names(before), k);
                    assert(entry_names(before)[j].0 == k);
                    assert(before[j].0@ == k);
                    lemma_key_index_unique(entry_names(before), j);
                }
            }
        }
    }

    /// Create a pending task under a fresh random identifier.
    pub fn create_task(&mut self, description: &str, required_specializations: Vec<AgentSpecialization>, consensus_threshold_permille: u32) -> (r: Result<SwarmTask, MultiAgentError>)
        requires
            old(self).wf(),
        ensures
            final(self).wf(),
            r is Ok,
            r->Ok_0.id@.len() == 36,
            fresh_task(r->Ok_0, r->Ok_0.id@, description@, required_specializations@, consensus_threshold_permille),
            names_of(final(self).tasks_view()) == put_name(names_of(old(self).tasks_view()), r->Ok_0.id@),
            value_of(final(self).tasks_view(), r->Ok_0.id@) is Some,
            same_task(value_of(final(self).tasks_view(), r->Ok_0.id@)->0, r->Ok_0),
            forall|k: Seq<char>| k != r->Ok_0.id@ ==> #[trigger] value_of(final(self).tasks_view(), k) == value_of(old(self).tasks_view(), k),
            final(self).agents_view() == old(self).agents_view(),
            final(self).messages_view() == old(self).messages_view(),
    {
        let id = random_id_text();
        Ok(self.create_task_as(id.as_str(), description, required_specializations, consensus_threshold_permille))
    }

    fn first_idle_index(&self, s: &AgentSpecialization) -> (r: Option<usize>)
        ensures
            match r {
                Some(i) => i < self.agents@.len() && first_idle(self.agents@, *s) == Some(i as int),
                None => first_idle(self.agents@, *s) is None,
            },
    {
        proof {
            lemma_first_idle(self.agents@, *s);
        }
        let mut i: usize = 0;
        while i < self.agents.len()
            invariant
                i <= self.agents@.len(),
                forall|j: int| 0 <= j < i ==> !idle_of(#[trigger] self.agents@[j].1, *s),
                match first_idle(self.agents@, *s) {
                    Some(k) => 0 <= k < self.agents@.len() && idle_of(self.agents@[k].1, *s)
                        && forall|j: int| 0 <= j < k ==> !idle_of(#[trigger] self.agents@[j].1, *s),
                    None => forall|j: int| 0 <= j < self.agents@.len() ==> !idle_of(#[trigger] self.agents@[j].1, *s),
                },
            decreases self.agents@.len() - i,
        {
            if self.agents[i].1.specialization.same_as(s) && self.agents[i].1.state == AgentState::Idle {
                return Some(i);
            }
            i = i + 1;
        }
        None
    }

    /// Route a task needing `required` to agents: for each specialisation in
    /// turn the first idle agent that has it, until one has none; for that
    /// one an agent is spawned and routing stops. Fewer than `min_agents`
    /// agents is a routing failure.
    fn assign_agents(&mut self, required: &Vec<AgentSpecialization>, min_agents: u32) -> (r: Result<Vec<Agent>, MultiAgentError>)
        requires
            old(self).wf(),
        ensures
            final(self).wf(),
            r is Ok <==> routed_count(old(self).agents_view(), required@) >= min_agents,
            r is Err ==> routing_failed(r->Err_0, routing_text(min_agents)),
            r is Ok ==> r->Ok_0@.len() == routed_count(old(self).agents_view(), required@),
            r is Ok ==> forall|j: int| 0 <= j < matched_count(old(self).agents_view(), required@) ==> same_agent(
                #[trigger] r->Ok_0@[j], old(self).agents_view()[first_idle(old(self).agents_view(), required@[j])->0].1),
            first_unmatched(old(self).agents_view(), required@) is None ==> final(self).agents_view() == old(self).agents_view(),
            first_unmatched(old(self).agents_view(), required@) is Some ==> exists|id: Seq<char>|
                spawned_into(final(self).agents_view(), old(self).agents_view(), id, required@[matched_count(old(self).agents_view(), required@)]),
            (r is Ok && first_unmatched(old(self).agents_view(), required@) is Some) ==>
                spawned_into(final(self).agents_view(), old(self).agents_view(), r->Ok_0@.last().id@, required@[matched_count(old(self).agents_view(), required@)])
                && same_agent(value_of(final(self).agents_view(), r->Ok_0@.last().id@)->0, r->Ok_0@.last()),
            final(self).tasks_view() == old(self).tasks_view(),
            final(self).messages_view() == old(self).messages_view(),
    {
        let ghost es = self.agents@;
        proof {
            lemma_first_unmatched(es, required@);
        }
        let mut assigned: Vec<Agent> = Vec::new();
        let mut k: usize = 0;
        while k < required.len()
            invariant
                k <= required@.len(),
                self.agents@ == es,
                assigned@.len() == k,
                forall|j: int| 0 <= j < k ==> first_idle(es, #[trigger] required@[j]) is Some,
                forall|j: int| 0 <= j < k ==> same_agent(#[trigger] assigned@[j], es[first_idle(es, required@[j])->0].1),
            ensures
                k == required@.len() || first_idle(es, required@[k as int]) is None,
            decreases required@.len() - k,
        {
            match self.first_idle_index(&required[k]) {
                Some(ix) => {
                    assigned.push(self.agents[ix].1.duplicate());
                    k = k + 1;
                },
                None => {
                    break;
                },
            }
        }
        proof {
            if k < required@.len() {
                assert(first_unmatched(es, required@) == Some(k as int)) by {
                    match first_unmatched(es, required@) {
                        Some(u) => {
                            if u < k {
                                assert(first_idle(es, required@[u]) is Some);
                            }
                            if u > k {
                                assert(first_idle(es, required@[k as int]) is Some);
                            }
                        },
                        None => {
                            assert(first_idle(es, required@[k as int]) is Some);
                        },
                    }
                }
            } else {
                assert(first_unmatched(es, required@) is None) by {
                    match first_unmatched(es, required@) {
                        Some(u) => {
                            assert(first_idle(es, required@[u]) is Some);
                        },
                        None => {},
                    }
                }
            }
        }
        if k < required.len() {
            let mut name = label(&required[k]);
            string_push_str(&mut name, "-agent");
            let spawned = self.spawn_agent(name.as_str(), required[k].duplicate());
            match spawned {
                Ok(a) => {
                    proof {
                        assert(matched_count(es, required@) == k);
                        assert(spawned_into(self.agents@, es, a.id@, required@[matched_count(es, required@)]));
                    }
                    assigned.push(a);
                },
                Err(e) => {
                    return Err(e);
                },
            }
        }
        if (assigned.len() as u64) < (min_agents as u64) {
            let mut text = to_owned_string("Could not assign minimum ");
            push_decimal_u64(&mut text, min_agents as u64);
            string_push_str(&mut text, " agents");
            return Err(MultiAgentError::RoutingFailed(text));
        }
        Ok(assigned)
    }

    /// Run the task `task_id`: route it to agents (spawning one where a
    /// needed specialisation has no idle agent), have each routed agent
    /// contribute through the provider, have the provider combine the
    /// contributions, and store the task completed with its result, the mean
    /// confidence of the contributions as its consensus level. Any failure
    /// leaves the tasks as they were.
    pub fn execute_task(&mut self, task_id: &str) -> (r: Result<SwarmResult, MultiAgentError>)
        requires
            old(self).wf(),
        ensures
            final(self).wf(),
            value_of(old(self).tasks_view(), task_id@) is None ==> r is Err && agent_not_found(r->Err_0, task_id@)
                && final(self).agents_view() == old(self).agents_view(),
            (value_of(old(self).tasks_view(), task_id@) is Some && routed_count(old(self).agents_view(),
                value_of(old(self).tasks_view(), task_id@)->0.required_specializations@) < value_of(old(self).tasks_view(), task_id@)->0.min_agents)
                ==> r is Err && routing_failed(r->Err_0, routing_text(value_of(old(self).tasks_view(), task_id@)->0.min_agents)),
            r is Err ==> final(self).tasks_view() == old(self).tasks_view(),
            r is Ok ==> value_of(old(self).tasks_view(), task_id@) is Some
                && value_of(final(self).tasks_view(), task_id@) is Some
                && completed(value_of(final(self).tasks_view(), task_id@)->0, value_of(old(self).tasks_view(), task_id@)->0,
                    old(self).agents_view(), r->Ok_0)
                && only_task(final(self).tasks_view(), old(self).tasks_view(), task_id@),
            final(self).messages_view() == old(self).messages_view(),
    {
        let found = find_name(&self.tasks, task_id);
        let i = match found {
            Some(i) => i,
            None => {
                return Err(MultiAgentError::AgentNotFound(to_owned_string(task_id)));
            },
        };
        let ghost old_task = self.tasks@[i as int].1;
        let ghost es = self.agents@;
        let ghost tasks_before = self.tasks@;
        proof {
            assert(value_of(self.tasks@, task_id@) == Some(old_task));
        }
        let mut task = self.tasks[i].1.duplicate();
        let start = instant_now();
        let assigned = match self.assign_agents(&task.required_specializations, task.min_agents) {
            Ok(a) => a,
            Err(e) => {
                return Err(e);
            },
        };
        let mut ids: Vec<String> = Vec::new();
        let mut j: usize = 0;
        while j < assigned.len()
            invariant
                j <= assigned@.len(),
                str_views(ids@) == agent_ids(assigned@.take(j as int)),
            decreases assigned@.len() - j,
        {
            ids.push(assigned[j].id.clone());
            assert(agent_ids(assigned@.take(j as int + 1)) =~= agent_ids(assigned@.take(j as int)).push(assigned@[j as int].id@));
            assert(str_views(ids@) =~= agent_ids(assigned@.take(j as int)).push(assigned@[j as int].id@));
            j = j + 1;
        }
        assert(assigned@.take(j as int) =~= assigned@);
        let context = AgentContext {
            task: task.description.clone(),
            tools: Vec::new(),
            shared_context: Vec::new(),
            constraints: AgentConstraints::default(),
        };
        let mut contributions: Vec<(String, AgentContribution)> = Vec::new();
        let mut j: usize = 0;
        let ghost agents_after = self.agents@;
        while j < assigned.len()
            invariant
                j <= assigned@.len(),
                distinct_keys(entry_names(contributions@)),
                names_of(contributions@) == put_all(Seq::empty(), agent_ids(assigned@.take(j as int))),
                self.tasks@ == tasks_before,
                self.agents@ == agents_after,
                self.messages@ == old(self).messages@,
                self.wf(),
                tasks_before == old(self).tasks@,
                value_of(tasks_before, task_id@) == Some(old_task),
                es == old(self).agents@,
                routed_count(es, old_task.required_specializations@) >= old_task.min_agents,
            decreases assigned@.len() - j,
        {
            match self.provider.execute(&assigned[j], task.description.as_str(), &context) {
                Ok(c) => {
                    put_named(&mut contributions, assigned[j].id.as_str(), c);
                    assert(agent_ids(assigned@.take(j as int + 1)) =~= agent_ids(assigned@.take(j as int)).push(assigned@[j as int].id@));
                    assert(agent_ids(assigned@.take(j as int + 1)).drop_last() =~= agent_ids(assigned@.take(j as int)));
                },
                Err(e) => {
                    return Err(e);
                },
            }
            j = j + 1;
        }
        assert(assigned@.take(j as int) =~= assigned@);
        if contributions.len() == 0 {
            return Err(MultiAgentError::ConsensusNotReached(to_owned_string("No contributions")));
        }
        let mut values: Vec<AgentContribution> = Vec::new();
        let mut j: usize = 0;
        while j < contributions.len()
            invariant
                j <= contributions@.len(),
            decreases contributions@.len() - j,
        {
            values.push(contributions[j].1.duplicate());
            j = j + 1;
        }
        let content = match self.provider.synthesize(values.as_slice()) {
            Ok(c) => c,
            Err(e) => {
                return Err(e);
            },
        };
        let consensus = average_confidence(&contributions);
        let elapsed = elapsed_millis(&start);
        let result = SwarmResult {
            content,
            consensus_level_permille: consensus,
            participants: copy_strings(&ids),
            dissent: Vec::new(),
            execution_time_ms: elapsed,
        };
        let copy = result.duplicate();
        task.status = TaskStatus::Completed;
        task.assigned_agents = ids;
        task.contributions = contributions;
        task.result = Some(result);
        proof {
            assert(task.id@ == task_id@);
            let req = old_task.required_specializations@;
            let m = matched_count(es, req);
            assert(str_views(task.assigned_agents@) == agent_ids(assigned@));
            assert(str_views(task.assigned_agents@).len() == routed_count(es, req));
            assert(routed_count(es, req) >= old_task.min_agents);
            assert(str_views(task.assigned_agents@).take(m) =~= matched_ids(es, req)) by {
                assert forall|k: int| 0 <= k < m implies str_views(task.assigned_agents@)[k] == #[trigger] matched_ids(es, req)[k] by {
                    assert(same_agent(assigned@[k], es[first_idle(es, req[k])->0].1));
                    assert(agent_ids(assigned@)[k] == assigned@[k].id@);
                }
            }
            assert(names_of(task.contributions@) == put_all(Seq::empty(), str_views(task.assigned_agents@)));
            assert(task.contributions@.len() > 0);
            assert(same_result(task.result->0, copy));
            assert(copy.participants@ == task.assigned_agents@);
            assert(copy.consensus_level_permille == mean_confidence(task.contributions@));
            assert(completed(task, old_task, es, copy));
        }
        self.put_task(task);
        proof {
            assert(names_of(self.tasks@) =~= names_of(tasks_before)) by {
                assert(put_name(names_of(tasks_before), task_id@) == names_of(tasks_before)) by {
                    assert(names_of(tasks_before)[i as int] == task_id@);
                }
            }
        }
        Ok(copy)
    }

    /// Send `message` to the swarm's listeners.
    pub fn send_message(&mut self, message: AgentMessage) -> (r: Result<(), MultiAgentError>)
        ensures
            r is Ok,
            final(self).messages_view() == old(self).messages_view().push(message),
            final(self).agents_view() == old(self).agents_view(),
            final(self).tasks_view() == old(self).tasks_view(),
    {
        self.messages.push(message);
        Ok(())
    }

    /// Take the messages sent so far, oldest first.
    pub fn take_messages(&mut self) -> (r: Vec<AgentMessage>)
        ensures
            r@ == old(self).messages_view(),
            final(self).messages_view().len() == 0,
            final(self).agents_view() == old(self).agents_view(),
            final(self).tasks_view() == old(self).tasks_view(),
    {
        let mut taken: Vec<AgentMessage> = Vec::new();
        std::mem::swap(&mut taken, &mut self.messages);
        taken
    }

    /// The agents, in the order they were first stored.
    pub fn get_agents(&self) -> (r: Vec<Agent>)
        ensures
            same_agents(r@, self.agents_view().map_values(|e: (String, Agent)| e.1)),
    {
        let mut out: Vec<Agent> = Vec::new();
        let mut i: usize = 0;
        while i < self.agents.len()
            invariant
                i <= self.agents@.len(),
                same_agents(out@, self.agents@.take(i as int).map_values(|e: (String, Agent)| e.1)),
            decreases self.agents@.len() - i,
        {
            out.push(self.agents[i].1.duplicate());
            i = i + 1;
        }
        assert(self.agents@.take(i as int) =~= self.agents@);
        out
    }

    /// The agent with identifier `id`.
    pub fn get_agent(&self, id: &str) -> (r: Option<Agent>)
        requires
            self.wf(),
        ensures
            r is Some <==> value_of(self.agents_view(), id@) is Some,
            r is Some ==> same_agent(r->0, value_of(self.agents_view(), id@)->0),
    {
        match find_name(&self.agents, id) {
            Some(i) => Some(self.agents[i].1.duplicate()),
            None => None,
        }
    }

    /// The task with identifier `id`.
    pub fn get_task(&self, id: &str) -> (r: Option<SwarmTask>)
        requires
            self.wf(),
        ensures
            r is Some <==> value_of(self.tasks_view(), id@) is Some,
            r is Some ==> same_task(r->0, value_of(self.tasks_view(), id@)->0),
    {
        match find_name(&self.tasks, id) {
            Some(i) => Some(self.tasks[i].1.duplicate()),
            None => None,
        }
    }
}

} // verus!
