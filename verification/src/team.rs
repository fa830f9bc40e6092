//! A team of agents working on one task: the messages they exchange, where
//! each message goes, when the team is done, what each role does with a
//! message, and how the coordinator's and the critic's replies are read.
use vstd::prelude::*;
use vstd::string::StringExecFns;
use crate::agents::{extract_json, json_span, AgentRole, CollaborationProtocol, MessageType};
use crate::reflector::{debug_str, str_debug};
use crate::text::{chars_of, str_eq, string_of};

verus! {

broadcast use vstd::string::group_string_axioms;

/// The content of a message. Confidences are in hundredths.
#[derive(Debug, Clone)]
pub enum MessageContent {
    /// Text content.
    Text(String),
    /// Structured data: an action and its JSON text.
    Structured { action: String, data: String },
    /// A task to work on.
    Task { task_id: String, description: String, subtasks: Vec<String>, priority: u8 },
    /// The result of a task.
    Result { task_id: String, output: String, confidence: u8, metadata: Vec<(String, String)> },
    /// A review of a result.
    Review { task_id: String, rating: u8, comments: String, suggestions: Vec<String> },
}

/// A message on the team's bus.
#[derive(Debug, Clone)]
pub struct AgentMessage {
    pub id: String,
    pub sender: String,
    /// The agent it is for; `None` for every agent.
    pub receiver: Option<String>,
    pub msg_type: MessageType,
    pub content: MessageContent,
    pub timestamp: u64,
}

/// The views of the team's agents: (id, role).
pub open spec fn members_view(agents: Seq<(String, AgentRole)>) -> Seq<(Seq<char>, AgentRole)> {
    agents.map_values(|a: (String, AgentRole)| (a.0@, a.1))
}

/// The position of the first agent with role `role`.
pub open spec fn first_with_role(agents: Seq<(Seq<char>, AgentRole)>, role: AgentRole) -> Option<nat>
    decreases agents.len(),
{
    if agents.len() == 0 {
        None
    } else {
        match first_with_role(agents.drop_last(), role) {
            Some(i) => Some(i),
            None => if agents.last().1 == role {
                Some((agents.len() - 1) as nat)
            } else {
                None
            },
        }
    }
}

/// The position of the first agent with id `id`.
pub open spec fn first_with_id(agents: Seq<(Seq<char>, AgentRole)>, id: Seq<char>) -> Option<nat>
    decreases agents.len(),
{
    if agents.len() == 0 {
        None
    } else {
        match first_with_id(agents.drop_last(), id) {
            Some(i) => Some(i),
            None => if agents.last().0 == id {
                Some((agents.len() - 1) as nat)
            } else {
                None
            },
        }
    }
}

proof fn lemma_first_with_role(agents: Seq<(Seq<char>, AgentRole)>, role: AgentRole, i: int)
    requires
        0 <= i <= agents.len(),
        forall|j: int| 0 <= j < i ==> (#[trigger] agents[j]).1 != role,
        i < agents.len() ==> agents[i].1 == role,
    ensures
        first_with_role(agents, role) == if i < agents.len() {
            Some(i as nat)
        } else {
            None::<nat>
        },
    decreases agents.len(),
{
    if agents.len() > 0 {
        let d = agents.drop_last();
        if i < agents.len() - 1 {
            lemma_first_with_role(d, role, i);
        } else {
            assert forall|j: int| 0 <= j < d.len() implies (#[trigger] d[j]).1 != role by {
                assert(d[j] == agents[j]);
            }
            lemma_first_with_role(d, role, d.len() as int);
        }
    }
}

proof fn lemma_first_with_id(agents: Seq<(Seq<char>, AgentRole)>, id: Seq<char>, i: int)
    requires
        0 <= i <= agents.len(),
        forall|j: int| 0 <= j < i ==> (#[trigger] agents[j]).0 != id,
        i < agents.len() ==> agents[i].0 == id,
    ensures
        first_with_id(agents, id) == if i < agents.len() {
            Some(i as nat)
        } else {
            None::<nat>
        },
    decreases agents.len(),
{
    if agents.len() > 0 {
        let d = agents.drop_last();
        if i < agents.len() - 1 {
            lemma_first_with_id(d, id, i);
        } else {
            assert forall|j: int| 0 <= j < d.len() implies (#[trigger] d[j]).0 != id by {
                assert(d[j] == agents[j]);
            }
            lemma_first_with_id(d, id, d.len() as int);
        }
    }
}

/// The position of the team's coordinator: the first agent with that role.
pub fn find_coordinator(agents: &Vec<(String, AgentRole)>) -> (r: Option<usize>)
    ensures
        match r {
            Some(i) => first_with_role(members_view(agents@), AgentRole::Coordinator) == Some(i as nat),
            None => first_with_role(members_view(agents@), AgentRole::Coordinator) is None,
        },
{
    let ghost m = members_view(agents@);
    let mut i: usize = 0;
    while i < agents.len()
        invariant
            i <= agents@.len(),
            m == members_view(agents@),
            forall|j: int| 0 <= j < i ==> (#[trigger] m[j]).1 != AgentRole::Coordinator,
        decreases agents.len() - i,
    {
        if agents[i].1 == AgentRole::Coordinator {
            proof {
                lemma_first_with_role(m, AgentRole::Coordinator, i as int);
            }
            return Some(i);
        }
        i += 1;
    }
    proof {
        lemma_first_with_role(m, AgentRole::Coordinator, i as int);
    }
    None
}

/// The position of the agent with id `id`, the first if several share it.
pub fn find_agent(agents: &Vec<(String, AgentRole)>, id: &str) -> (r: Option<usize>)
    ensures
        match r {
            Some(i) => first_with_id(members_view(agents@), id@) == Some(i as nat),
            None => first_with_id(members_view(agents@), id@) is None,
        },
{
    let ghost m = members_view(agents@);
    let mut i: usize = 0;
    while i < agents.len()
        invariant
            i <= agents@.len(),
            m == members_view(agents@),
            forall|j: int| 0 <= j < i ==> (#[trigger] m[j]).0 != id@,
        decreases agents.len() - i,
    {
        if str_eq(agents[i].0.as_str(), id) {
            proof {
                lemma_first_with_id(m, id@, i as int);
            }
            return Some(i);
        }
        i += 1;
    }
    proof {
        lemma_first_with_id(m, id@, i as int);
    }
    None
}

/// The task id that marks the team's final result.
pub open spec fn final_task_id() -> Seq<char> {
    "final"@
}

/// The output of a message that carries the team's final result.
pub open spec fn final_output_of(msg: AgentMessage) -> Option<Seq<char>> {
    match msg.content {
        MessageContent::Result { task_id, output, .. } => if task_id@ == final_task_id() {
            Some(output@)
        } else {
            None
        },
        _ => None,
    }
}

/// A copy of a string.
fn copy_string(s: &String) -> (r: String)
    ensures
        r@ == s@,
{
    string_of(chars_of(s.as_str()).as_slice())
}

/// The output of the team's final result, if the message carries it.
pub fn final_output(msg: &AgentMessage) -> (r: Option<String>)
    ensures
        match r {
            Some(o) => final_output_of(*msg) == Some(o@),
            None => final_output_of(*msg) is None,
        },
{
    proof {
        reveal_strlit("final");
    }
    match &msg.content {
        MessageContent::Result { task_id, output, .. } => {
            if str_eq(task_id.as_str(), "final") {
                Some(copy_string(output))
            } else {
                None
            }
        },
        _ => None,
    }
}

/// The ids of the team's specialists, in order.
pub open spec fn specialists_of(agents: Seq<(Seq<char>, AgentRole)>) -> Seq<Seq<char>>
    decreases agents.len(),
{
    if agents.len() == 0 {
        Seq::empty()
    } else if agents.last().1 == AgentRole::Specialist {
        specialists_of(agents.drop_last()).push(agents.last().0)
    } else {
        specialists_of(agents.drop_last())
    }
}

/// The ids of the team's specialists, in order.
pub fn specialist_ids(agents: &Vec<(String, AgentRole)>) -> (r: Vec<String>)
    ensures
        r@.map_values(|s: String| s@) == specialists_of(members_view(agents@)),
{
    let ghost m = members_view(agents@);
    let mut r: Vec<String> = Vec::new();
    let mut i: usize = 0;
    while i < agents.len()
        invariant
            i <= agents@.len(),
            m == members_view(agents@),
            r@.map_values(|s: String| s@) == specialists_of(m.take(i as int)),
        decreases agents.len() - i,
    {
        assert(m.take(i + 1).drop_last() =~= m.take(i as int));
        if agents[i].1 == AgentRole::Specialist {
            let ghost before = r@.map_values(|s: String| s@);
            r.push(copy_string(&agents[i].0));
            assert(r@.map_values(|s: String| s@) =~= before.push(m[i as int].0));
        }
        i += 1;
    }
    assert(m.take(agents@.len() as int) =~= m);
    r
}

/// Where the team is: its agents as (id, role), and whether it is done.
#[derive(Debug)]
pub struct TeamState {
    pub agents: Vec<(String, AgentRole)>,
    pub done: bool,
}

impl View for TeamState {
    type V = (Seq<(Seq<char>, AgentRole)>, bool);

    open spec fn view(&self) -> (Seq<(Seq<char>, AgentRole)>, bool) {
        (members_view(self.agents@), self.done)
    }
}

/// What happened on the team's bus.
#[derive(Debug)]
pub enum TeamEvent {
    /// The task was posted on the bus.
    Started,
    /// A message arrived on the bus.
    Delivered(AgentMessage),
    /// Nothing arrived in time.
    TimedOut,
    /// The bus closed.
    BusClosed,
}

/// Whose queue a message goes to.
#[derive(Debug, Clone, Copy, PartialEq, Eq, Structural)]
pub enum Delivery {
    /// The agent at this position.
    To(usize),
    /// Every agent.
    Everyone,
    /// No agent: the receiver is not on the team.
    Nobody,
}

/// Why the team stops without a result.
#[derive(Debug, Clone, Copy, PartialEq, Eq, Structural)]
pub enum TeamFailure {
    /// The team has no coordinator to give the task to.
    NoCoordinator,
    /// The bus closed or nothing arrived in time before a final result.
    Unfinished,
}

/// The error text of a failure.
pub open spec fn failure_text(f: TeamFailure) -> Seq<char> {
    match f {
        TeamFailure::NoCoordinator => "No coordinator found"@,
        TeamFailure::Unfinished => "Task execution failed or timed out"@,
    }
}

impl TeamFailure {
    /// The error text of this failure.
    pub fn message(&self) -> (s: &'static str)
        ensures
            s@ == failure_text(*self),
    {
        match self {
            TeamFailure::NoCoordinator => "No coordinator found",
            TeamFailure::Unfinished => "Task execution failed or timed out",
        }
    }
}

/// What the team does next.
#[derive(Debug)]
pub enum TeamAction {
    /// Put the message (the task, on start) into these queues, then let the
    /// agents work.
    Deliver(Delivery),
    /// Put the message into these queues and finish with this output.
    Finish(Delivery, String),
    /// Stop with this failure.
    Fail(TeamFailure),
}

/// The view of a team action.
pub enum TeamActionView {
    Deliver(Delivery),
    Finish(Delivery, Seq<char>),
    Fail(TeamFailure),
}

/// The view of an action.
pub open spec fn team_action_view(a: TeamAction) -> TeamActionView {
    match a {
        TeamAction::Deliver(d) => TeamActionView::Deliver(d),
        TeamAction::Finish(d, o) => TeamActionView::Finish(d, o@),
        TeamAction::Fail(f) => TeamActionView::Fail(f),
    }
}

/// Where a message goes: to its receiver if the team has an agent with that
/// id, to nobody if not, to every agent if it has no receiver.
pub open spec fn delivery_of(agents: Seq<(Seq<char>, AgentRole)>, msg: AgentMessage) -> Delivery {
    match msg.receiver {
        Some(r) => match first_with_id(agents, r@) {
            Some(i) => Delivery::To(i as usize),
            None => Delivery::Nobody,
        },
        None => Delivery::Everyone,
    }
}

/// The next state and action of the team.
pub open spec fn team_next(
    s: (Seq<(Seq<char>, AgentRole)>, bool),
    e: TeamEvent,
) -> ((Seq<(Seq<char>, AgentRole)>, bool), TeamActionView) {
    if s.1 {
        (s, TeamActionView::Fail(TeamFailure::Unfinished))
    } else {
        match e {
            TeamEvent::Started => match first_with_role(s.0, AgentRole::Coordinator) {
                Some(i) => (s, TeamActionView::Deliver(Delivery::To(i as usize))),
                None => ((s.0, true), TeamActionView::Fail(TeamFailure::NoCoordinator)),
            },
            TeamEvent::Delivered(msg) => match final_output_of(msg) {
                Some(o) => ((s.0, true), TeamActionView::Finish(delivery_of(s.0, msg), o)),
                None => (s, TeamActionView::Deliver(delivery_of(s.0, msg))),
            },
            TeamEvent::TimedOut | TeamEvent::BusClosed => ((s.0, true), TeamActionView::Fail(TeamFailure::Unfinished)),
        }
    }
}

proof fn lemma_first_with_role_props(agents: Seq<(Seq<char>, AgentRole)>, role: AgentRole)
    ensures
        first_with_role(agents, role) matches Some(i) ==> i < agents.len() && agents[i as int].1 == role
            && forall|j: int| 0 <= j < i ==> (#[trigger] agents[j]).1 != role,
        first_with_role(agents, role) is None ==> forall|j: int|
            0 <= j < agents.len() ==> (#[trigger] agents[j]).1 != role,
    decreases agents.len(),
{
    if agents.len() > 0 {
        lemma_first_with_role_props(agents.drop_last(), role);
        assert forall|j: int| 0 <= j < agents.len() - 1 implies agents.drop_last()[j] == agents[j] by {}
    }
}

proof fn lemma_first_with_id_props(agents: Seq<(Seq<char>, AgentRole)>, id: Seq<char>)
    ensures
        first_with_id(agents, id) matches Some(i) ==> i < agents.len() && agents[i as int].0 == id
            && forall|j: int| 0 <= j < i ==> (#[trigger] agents[j]).0 != id,
        first_with_id(agents, id) is None ==> forall|j: int|
            0 <= j < agents.len() ==> (#[trigger] agents[j]).0 != id,
    decreases agents.len(),
{
    if agents.len() > 0 {
        lemma_first_with_id_props(agents.drop_last(), id);
        assert forall|j: int| 0 <= j < agents.len() - 1 implies agents.drop_last()[j] == agents[j] by {}
    }
}

/// How the team runs. Its agents never change. Once it is done it stays
/// done and answers every event with a failure. On start the task goes to
/// the first coordinator on the team, and a team without one fails at once.
/// A delivered message goes to the first agent whose id is its receiver, to
/// nobody when no agent has that id, and to every agent when it has no
/// receiver; the team finishes, with the message's output, exactly when the
/// message is the result of the task named `final`. A timeout or a closed
/// bus ends an unfinished team with a failure.
pub proof fn team_runs_to_one_outcome(s: (Seq<(Seq<char>, AgentRole)>, bool), e: TeamEvent)
    requires
        s.0.len() <= usize::MAX,
    ensures
        team_next(s, e).0.0 == s.0,
        s.1 ==> team_next(s, e) == (s, TeamActionView::Fail(TeamFailure::Unfinished)),
        !s.1 && e is Started ==> match team_next(s, e).1 {
            TeamActionView::Deliver(Delivery::To(i)) => !team_next(s, e).0.1 && i < s.0.len()
                && s.0[i as int].1
                == AgentRole::Coordinator && forall|j: int| 0 <= j < i ==> (#[trigger] s.0[j]).1
                != AgentRole::Coordinator,
            TeamActionView::Fail(TeamFailure::NoCoordinator) => team_next(s, e).0.1 && forall|j: int|
                0 <= j < s.0.len() ==> (#[trigger] s.0[j]).1 != AgentRole::Coordinator,
            _ => false,
        },
        !s.1 && e is Delivered ==> {
            let msg = e->Delivered_0;
            let d = delivery_of(s.0, msg);
            &&& msg.receiver is None ==> d == Delivery::Everyone
            &&& msg.receiver is Some ==> match d {
                Delivery::To(i) => i < s.0.len() && s.0[i as int].0 == msg.receiver->0@,
                Delivery::Nobody => forall|j: int| 0 <= j < s.0.len() ==> (#[trigger] s.0[j]).0
                    != msg.receiver->0@,
                Delivery::Everyone => false,
            }
            &&& msg.content is Result && msg.content->Result_task_id@ == "final"@ ==> team_next(s, e) == (
                (s.0, true),
                TeamActionView::Finish(d, msg.content->Result_output@),
            )
            &&& !(msg.content is Result && msg.content->Result_task_id@ == "final"@) ==> team_next(s, e)
                == (s, TeamActionView::Deliver(d))
        },
        !s.1 && (e is TimedOut || e is BusClosed) ==> team_next(s, e) == ((s.0, true), TeamActionView::Fail(
            TeamFailure::Unfinished,
        )),
{
    lemma_first_with_role_props(s.0, AgentRole::Coordinator);
    if let Some(i) = first_with_role(s.0, AgentRole::Coordinator) {
        assert((i as usize) as nat == i);
    }
    if let TeamEvent::Delivered(msg) = e {
        if let Some(r) = msg.receiver {
            lemma_first_with_id_props(s.0, r@);
            if let Some(i) = first_with_id(s.0, r@) {
                assert((i as usize) as nat == i);
            }
        }
    }
}

/// Where a message goes among the team's agents.
fn deliver(agents: &Vec<(String, AgentRole)>, msg: &AgentMessage) -> (d: Delivery)
    ensures
        d == delivery_of(members_view(agents@), *msg),
{
    match &msg.receiver {
        Some(r) => match find_agent(agents, r.as_str()) {
            Some(i) => Delivery::To(i),
            None => Delivery::Nobody,
        },
        None => Delivery::Everyone,
    }
}

/// One decision of the team: where a message goes, and whether the team is
/// done, with its final output or a failure.
pub fn team_step(state: TeamState, event: &TeamEvent) -> (r: (TeamState, TeamAction))
    ensures
        (r.0@, team_action_view(r.1)) == team_next(state@, *event),
{
    let TeamState { agents, done } = state;
    if done {
        return (TeamState { agents, done }, TeamAction::Fail(TeamFailure::Unfinished));
    }
    match event {
        TeamEvent::Started => match find_coordinator(&agents) {
            Some(i) => (TeamState { agents, done: false }, TeamAction::Deliver(Delivery::To(i))),
            None => (TeamState { agents, done: true }, TeamAction::Fail(TeamFailure::NoCoordinator)),
        },
        TeamEvent::Delivered(msg) => {
            let d = deliver(&agents, msg);
            match final_output(msg) {
                Some(o) => (TeamState { agents, done: true }, TeamAction::Finish(d, o)),
                None => (TeamState { agents, done: false }, TeamAction::Deliver(d)),
            }
        },
        _ => (TeamState { agents, done: true }, TeamAction::Fail(TeamFailure::Unfinished)),
    }
}

/// What an agent does with a message it took from its queue.
#[derive(Debug)]
pub enum AgentWork {
    /// The coordinator splits a task among the specialists.
    Decompose { task_id: String, description: String },
    /// A specialist carries out a task.
    Execute { task_id: String, description: String },
    /// The critic reviews a result.
    ReviewResult { task_id: String, output: String },
    /// The integrator combines the results.
    Integrate,
    /// The coordinator asks the integrator to combine the results.
    RequestIntegration,
    /// Nothing to answer.
    Idle,
}

/// The view of an agent's work.
pub enum WorkView {
    Decompose(Seq<char>, Seq<char>),
    Execute(Seq<char>, Seq<char>),
    ReviewResult(Seq<char>, Seq<char>),
    Integrate,
    RequestIntegration,
    Idle,
}

/// The view of a work item.
pub open spec fn work_view(w: AgentWork) -> WorkView {
    match w {
        AgentWork::Decompose { task_id, description } => WorkView::Decompose(task_id@, description@),
        AgentWork::Execute { task_id, description } => WorkView::Execute(task_id@, description@),
        AgentWork::ReviewResult { task_id, output } => WorkView::ReviewResult(task_id@, output@),
        AgentWork::Integrate => WorkView::Integrate,
        AgentWork::RequestIntegration => WorkView::RequestIntegration,
        AgentWork::Idle => WorkView::Idle,
    }
}

/// What an agent of role `role` does with a message of content `c`, with
/// `pending` tasks outstanding: the coordinator splits tasks and, once no
/// task is pending, asks for integration when a result comes in; a
/// specialist carries out tasks; the critic reviews results; the integrator
/// combines the results when asked in text; a monitor only observes.
pub open spec fn work_of(role: AgentRole, c: MessageContent, pending: u64) -> WorkView {
    match (role, c) {
        (AgentRole::Coordinator, MessageContent::Task { task_id, description, .. }) => WorkView::Decompose(
            task_id@,
            description@,
        ),
        (AgentRole::Coordinator, MessageContent::Result { .. }) => if pending == 0 {
            WorkView::RequestIntegration
        } else {
            WorkView::Idle
        },
        (AgentRole::Specialist, MessageContent::Task { task_id, description, .. }) => WorkView::Execute(
            task_id@,
            description@,
        ),
        (AgentRole::Critic, MessageContent::Result { task_id, output, .. }) => WorkView::ReviewResult(
            task_id@,
            output@,
        ),
        (AgentRole::Integrator, MessageContent::Text(_)) => WorkView::Integrate,
        _ => WorkView::Idle,
    }
}

/// What an agent of role `role` does with a message.
pub fn work_for(role: &AgentRole, msg: &AgentMessage, pending: u64) -> (w: AgentWork)
    ensures
        work_view(w) == work_of(*role, msg.content, pending),
{
    match (role, &msg.content) {
        (AgentRole::Coordinator, MessageContent::Task { task_id, description, .. }) => AgentWork::Decompose {
            task_id: copy_string(task_id),
            description: copy_string(description),
        },
        (AgentRole::Coordinator, MessageContent::Result { .. }) => if pending == 0 {
            AgentWork::RequestIntegration
        } else {
            AgentWork::Idle
        },
        (AgentRole::Specialist, MessageContent::Task { task_id, description, .. }) => AgentWork::Execute {
            task_id: copy_string(task_id),
            description: copy_string(description),
        },
        (AgentRole::Critic, MessageContent::Result { task_id, output, .. }) => AgentWork::ReviewResult {
            task_id: copy_string(task_id),
            output: copy_string(output),
        },
        (AgentRole::Integrator, MessageContent::Text(_)) => AgentWork::Integrate,
        _ => AgentWork::Idle,
    }
}

/// The coordinator's assignments, sent to every agent.
pub fn assignment_message(sender: String, data: String, id: String, timestamp: u64) -> (m: AgentMessage)
    ensures
        m.id == id,
        m.sender == sender,
        m.receiver is None,
        m.msg_type == MessageType::TaskAssignment,
        m.content matches MessageContent::Structured { action, data: d } && action@ == "batch_assign"@ && d == data,
        m.timestamp == timestamp,
{
    AgentMessage {
        id,
        sender,
        receiver: None,
        msg_type: MessageType::TaskAssignment,
        content: MessageContent::Structured { action: "batch_assign".to_owned(), data },
        timestamp,
    }
}

/// The coordinator's request to the integrator once all tasks are done.
pub fn integration_request(sender: String, id: String, timestamp: u64) -> (m: AgentMessage)
    ensures
        m.id == id,
        m.sender == sender,
        m.receiver matches Some(r) && r@ == "integrator"@,
        m.msg_type == MessageType::IntegrationRequest,
        m.content matches MessageContent::Text(t) && t@ == "All tasks completed, please integrate"@,
        m.timestamp == timestamp,
{
    AgentMessage {
        id,
        sender,
        receiver: Some("integrator".to_owned()),
        msg_type: MessageType::IntegrationRequest,
        content: MessageContent::Text("All tasks completed, please integrate".to_owned()),
        timestamp,
    }
}

/// A specialist's result, sent to the coordinator with confidence 0.85.
pub fn specialist_result(sender: String, task_id: String, output: String, id: String, timestamp: u64) -> (m: AgentMessage)
    ensures
        m.id == id,
        m.sender == sender,
        m.receiver matches Some(r) && r@ == "coordinator"@,
        m.msg_type == MessageType::ResultSubmission,
        m.content matches MessageContent::Result { task_id: t, output: o, confidence, metadata } && t == task_id
            && o == output && confidence == 85 && metadata@.len() == 0,
        m.timestamp == timestamp,
{
    AgentMessage {
        id,
        sender,
        receiver: Some("coordinator".to_owned()),
        msg_type: MessageType::ResultSubmission,
        content: MessageContent::Result { task_id, output, confidence: 85, metadata: Vec::new() },
        timestamp,
    }
}

/// The critic's review, sent to the integrator.
pub fn critic_review(
    sender: String,
    task_id: String,
    review: (u8, String, Vec<String>),
    id: String,
    timestamp: u64,
) -> (m: AgentMessage)
    ensures
        m.id == id,
        m.sender == sender,
        m.receiver matches Some(r) && r@ == "integrator"@,
        m.msg_type == MessageType::ReviewResponse,
        m.content == (MessageContent::Review { task_id, rating: review.0, comments: review.1, suggestions: review.2 }),
        m.timestamp == timestamp,
{
    let (rating, comments, suggestions) = review;
    AgentMessage {
        id,
        sender,
        receiver: Some("integrator".to_owned()),
        msg_type: MessageType::ReviewResponse,
        content: MessageContent::Review { task_id, rating, comments, suggestions },
        timestamp,
    }
}

/// The integrator's final result, sent to every agent with confidence 0.9.
pub fn integrated_result(sender: String, output: String, id: String, timestamp: u64) -> (m: AgentMessage)
    ensures
        m.id == id,
        m.sender == sender,
        m.receiver is None,
        m.msg_type == MessageType::ResultSubmission,
        m.content matches MessageContent::Result { task_id, output: o, confidence, metadata } && task_id@
            == final_task_id() && o == output && confidence == 90 && metadata@.len() == 0,
        final_output_of(m) == Some(output@),
        m.timestamp == timestamp,
{
    AgentMessage {
        id,
        sender,
        receiver: None,
        msg_type: MessageType::ResultSubmission,
        content: MessageContent::Result { task_id: "final".to_owned(), output, confidence: 90, metadata: Vec::new() },
        timestamp,
    }
}

/// The elements of the JSON array that `text` parses to, each written back
/// as compact JSON text (`serde_json::from_str::<Vec<Value>>`, then
/// `Value::to_string`); `None` when `text` is no JSON array.
pub uninterp spec fn json_array_items(text: Seq<char>) -> Option<Seq<Seq<char>>>;

/// Parses `text` as a JSON array and writes each element back as JSON text.
#[verifier::external_body]
fn json_items(text: &str) -> (r: Option<Vec<String>>)
    ensures
        match r {
            Some(v) => json_array_items(text@) == Some(v@.map_values(|s: String| s@)),
            None => json_array_items(text@) is None,
        },
{
    serde_json::from_str::<Vec<serde_json::Value>>(text).ok().map(|v| v.iter().map(|x| x.to_string()).collect())
}

/// `s` as a JSON string literal, quoted and escaped (`serde_json::to_string`).
pub uninterp spec fn json_quoted(s: Seq<char>) -> Seq<char>;

/// Writes `s` as a JSON string literal.
#[verifier::external_body]
fn json_quote(s: &str) -> (r: String)
    ensures
        r@ == json_quoted(s@),
{
    serde_json::to_string(s).unwrap_or_default()
}

/// The assignment made when the coordinator's reply holds no list: the whole
/// task to the given specialist, as a JSON object with sorted keys.
pub open spec fn default_assignment(specialist: Seq<char>, description: Seq<char>) -> Seq<char> {
    "{\"description\":"@ + json_quoted(description) + ",\"specialist_id\":"@ + json_quoted(specialist)
        + ",\"subtask\":\"main\"}"@
}

/// The specialist a task falls back to: the first specialist, or
/// `specialist_1` when the team has none.
pub open spec fn fallback_specialist(specialists: Seq<Seq<char>>) -> Seq<char> {
    if specialists.len() > 0 {
        specialists[0]
    } else {
        "specialist_1"@
    }
}

/// The assignments the coordinator reads from its reply: the elements of
/// the JSON array in it, else the whole task to one specialist.
pub open spec fn assignments_of(reply: Seq<char>, description: Seq<char>, specialists: Seq<Seq<char>>) -> Seq<Seq<char>> {
    let fallback = seq![default_assignment(fallback_specialist(specialists), description)];
    match json_span(reply) {
        Some(j) => match json_array_items(j) {
            Some(items) => items,
            None => fallback,
        },
        None => fallback,
    }
}

/// Appends a string slice.
fn push_str(out: &mut String, s: &str)
    ensures
        final(out)@ == old(out)@ + s@,
{
    out.append(s);
}

/// The assignments the coordinator reads from its reply to the
/// decomposition prompt, as JSON texts.
pub fn assignments_from_reply(reply: &str, description: &str, specialists: &Vec<String>) -> (r: Vec<String>)
    ensures
        r@.map_values(|s: String| s@) == assignments_of(reply@, description@, specialists@.map_values(|s: String| s@)),
{
    match extract_json(reply) {
        Some(j) => match json_items(j) {
            Some(items) => {
                return items;
            },
            None => {},
        },
        None => {},
    }
    let ghost sv = specialists@.map_values(|s: String| s@);
    let mut text = String::new();
    push_str(&mut text, "{\"description\":");
    let d = json_quote(description);
    push_str(&mut text, d.as_str());
    push_str(&mut text, ",\"specialist_id\":");
    let q = if specialists.len() > 0 {
        json_quote(specialists[0].as_str())
    } else {
        json_quote("specialist_1")
    };
    push_str(&mut text, q.as_str());
    push_str(&mut text, ",\"subtask\":\"main\"}");
    proof {
        reveal_strlit("specialist_1");
    }
    assert(text@ =~= default_assignment(fallback_specialist(sv), description@));
    let r = vec![text];
    assert(r@.map_values(|s: String| s@) =~= seq![default_assignment(fallback_specialist(sv), description@)]);
    r
}

/// `items` joined with `sep` between them.
pub open spec fn joined(items: Seq<Seq<char>>, sep: Seq<char>) -> Seq<char>
    decreases items.len(),
{
    if items.len() == 0 {
        Seq::empty()
    } else if items.len() == 1 {
        items[0]
    } else {
        joined(items.drop_last(), sep) + sep + items.last()
    }
}

/// The data of the coordinator's broadcast: `{"assignments":[...]}`.
pub open spec fn assignment_data_of(items: Seq<Seq<char>>) -> Seq<char> {
    "{\"assignments\":["@ + joined(items, ","@) + "]}"@
}

/// Writes `items` joined with `sep`.
fn join_into(out: &mut String, items: &Vec<String>, sep: &str)
    ensures
        final(out)@ == old(out)@ + joined(items@.map_values(|s: String| s@), sep@),
{
    let ghost iv = items@.map_values(|s: String| s@);
    let ghost start = out@;
    let mut i: usize = 0;
    while i < items.len()
        invariant
            i <= items@.len(),
            iv == items@.map_values(|s: String| s@),
            out@ == start + joined(iv.take(i as int), sep@),
        decreases items.len() - i,
    {
        assert(iv.take(i + 1).drop_last() =~= iv.take(i as int));
        if i > 0 {
            push_str(out, sep);
        }
        push_str(out, items[i].as_str());
        assert(iv.take(i + 1).last() == iv[i as int]);
        if i == 0 {
            assert(iv.take(1) =~= seq![iv[0]]);
        }
        i += 1;
    }
    assert(iv.take(items@.len() as int) =~= iv);
}

/// The data of the coordinator's broadcast of the assignments.
pub fn assignment_data(items: &Vec<String>) -> (r: String)
    ensures
        r@ == assignment_data_of(items@.map_values(|s: String| s@)),
{
    let mut r = String::new();
    push_str(&mut r, "{\"assignments\":[");
    join_into(&mut r, items, ",");
    push_str(&mut r, "]}");
    r
}

/// The fields of the JSON value that `text` parses to: `rating` as an
/// unsigned integer, `comments` as a string, and `suggestions` as an array
/// with each element as a string if it is one (`serde_json::from_str`, then
/// indexing, `as_u64`, `as_str`, `as_array`); `None` when `text` is no JSON.
pub uninterp spec fn json_review_fields(text: Seq<char>) -> Option<(Option<u64>, Option<Seq<char>>, Option<Seq<Option<Seq<char>>>>)>;

/// Parses `text` as JSON and reads the fields of a review.
#[verifier::external_body]
fn json_review(text: &str) -> (r: Option<(Option<u64>, Option<String>, Option<Vec<Option<String>>>)>)
    ensures
        match r {
            Some((a, b, c)) => json_review_fields(text@) == Some(
                (
                    a,
                    match b {
                        Some(x) => Some(x@),
                        None => None,
                    },
                    match c {
                        Some(v) => Some(
                            v@.map_values(
                                |o: Option<String>|
                                    match o {
                                        Some(x) => Some(x@),
                                        None => None,
                                    },
                            ),
                        ),
                        None => None,
                    },
                ),
            ),
            None => json_review_fields(text@) is None,
        },
{
    serde_json::from_str::<serde_json::Value>(text).ok().map(
        |v| (
            v["rating"].as_u64(),
            v["comments"].as_str().map(String::from),
            v["suggestions"].as_array().map(|a| a.iter().map(|x| x.as_str().map(String::from)).collect()),
        ),
    )
}

/// The strings among optional strings, in order.
pub open spec fn present(v: Seq<Option<Seq<char>>>) -> Seq<Seq<char>>
    decreases v.len(),
{
    if v.len() == 0 {
        Seq::empty()
    } else {
        match v.last() {
            Some(x) => present(v.drop_last()).push(x),
            None => present(v.drop_last()),
        }
    }
}

/// The review the critic reads from its reply: rating (5 when missing,
/// otherwise its low byte), comments (empty when missing) and the string
/// suggestions; `(5, "No specific comments", [])` when the reply holds no
/// JSON value.
pub open spec fn review_of(reply: Seq<char>) -> (u8, Seq<char>, Seq<Seq<char>>) {
    let fallback = (5u8, "No specific comments"@, Seq::<Seq<char>>::empty());
    match json_span(reply) {
        Some(j) => match json_review_fields(j) {
            Some((rating, comments, suggestions)) => (
                match rating {
                    Some(n) => (n % 256) as u8,
                    None => 5u8,
                },
                match comments {
                    Some(c) => c,
                    None => Seq::empty(),
                },
                match suggestions {
                    Some(v) => present(v),
                    None => Seq::empty(),
                },
            ),
            None => fallback,
        },
        None => fallback,
    }
}

/// The review the critic reads from its reply.
pub fn review_from_reply(reply: &str) -> (r: (u8, String, Vec<String>))
    ensures
        (r.0, r.1@, r.2@.map_values(|s: String| s@)) == review_of(reply@),
{
    proof {
        reveal_strlit("No specific comments");
    }
    let fallback = (5u8, "No specific comments".to_owned(), Vec::new());
    let j = match extract_json(reply) {
        Some(j) => j,
        None => {
            assert(fallback.2@.map_values(|s: String| s@) =~= Seq::<Seq<char>>::empty());
            return fallback;
        },
    };
    match json_review(j) {
        Some((rating, comments, suggestions)) => {
            let rating: u8 = match rating {
                Some(n) => (n % 256) as u8,
                None => 5,
            };
            let comments = match comments {
                Some(c) => c,
                None => String::new(),
            };
            let mut kept: Vec<String> = Vec::new();
            match suggestions {
                Some(v) => {
                    let ghost vv = v@.map_values(
                        |o: Option<String>|
                            match o {
                                Some(x) => Some(x@),
                                None => None,
                            },
                    );
                    let mut i: usize = 0;
                    while i < v.len()
                        invariant
                            i <= v@.len(),
                            vv == v@.map_values(
                                |o: Option<String>|
                                    match o {
                                        Some(x) => Some(x@),
                                        None => None,
                                    },
                            ),
                            kept@.map_values(|s: String| s@) == present(vv.take(i as int)),
                        decreases v.len() - i,
                    {
                        assert(vv.take(i + 1).drop_last() =~= vv.take(i as int));
                        let ghost before = kept@.map_values(|s: String| s@);
                        match &v[i] {
                            Some(x) => {
                                kept.push(copy_string(x));
                                assert(kept@.map_values(|s: String| s@) =~= before.push(x@));
                            },
                            None => {},
                        }
                        i += 1;
                    }
                    assert(vv.take(v@.len() as int) =~= vv);
                },
                None => {
                    assert(kept@.map_values(|s: String| s@) =~= Seq::<Seq<char>>::empty());
                },
            }
            (rating, comments, kept)
        },
        None => {
            assert(fallback.2@.map_values(|s: String| s@) =~= Seq::<Seq<char>>::empty());
            fallback
        },
    }
}

/// A list of strings as `{:?}` writes it: `["a", "b"]`.
pub open spec fn debug_list(items: Seq<Seq<char>>) -> Seq<char> {
    "["@ + joined(items.map_values(|x: Seq<char>| str_debug(x)), ", "@) + "]"@
}

/// The prompt asking the coordinator to split a task among specialists.
pub open spec fn decompose_prompt_of(description: Seq<char>, specialists: Seq<Seq<char>>) -> Seq<char> {
    "Decompose the following task into subtasks for specialists:\n\nTask: "@ + description
        + "\n\nAvailable specialists: "@ + debug_list(specialists)
        + "\n\nReturn a JSON array of assignments with format:\n[{\"specialist_id\": \"...\", \"subtask\": \"...\", \"description\": \"...\"}]"@
}

/// The prompt asking the coordinator to split a task among specialists.
pub fn decompose_prompt(description: &str, specialists: &Vec<String>) -> (r: String)
    ensures
        r@ == decompose_prompt_of(description@, specialists@.map_values(|s: String| s@)),
{
    let ghost sv = specialists@.map_values(|s: String| s@);
    let mut quoted: Vec<String> = Vec::new();
    let mut i: usize = 0;
    while i < specialists.len()
        invariant
            i <= specialists@.len(),
            sv == specialists@.map_values(|s: String| s@),
            quoted@.map_values(|s: String| s@) == sv.take(i as int).map_values(|x: Seq<char>| str_debug(x)),
        decreases specialists.len() - i,
    {
        let ghost before = quoted@.map_values(|s: String| s@);
        quoted.push(debug_str(specialists[i].as_str()));
        assert(quoted@.map_values(|s: String| s@) =~= before.push(str_debug(sv[i as int])));
        assert(sv.take(i + 1).map_values(|x: Seq<char>| str_debug(x)) =~= sv.take(i as int).map_values(
            |x: Seq<char>| str_debug(x),
        ).push(str_debug(sv[i as int])));
        i += 1;
    }
    assert(sv.take(specialists@.len() as int) =~= sv);
    let mut r = String::new();
    push_str(&mut r, "Decompose the following task into subtasks for specialists:\n\nTask: ");
    push_str(&mut r, description);
    push_str(&mut r, "\n\nAvailable specialists: ");
    push_str(&mut r, "[");
    join_into(&mut r, &quoted, ", ");
    push_str(&mut r, "]");
    push_str(
        &mut r,
        "\n\nReturn a JSON array of assignments with format:\n[{\"specialist_id\": \"...\", \"subtask\": \"...\", \"description\": \"...\"}]",
    );
    r
}

/// The prompt asking a specialist to carry out a task.
pub open spec fn specialist_prompt_of(description: Seq<char>) -> Seq<char> {
    "You are a specialist agent. Execute the following task and provide a detailed result:\n\nTask: "@ + description
        + "\n\nProvide your specialized output."@
}

/// The prompt asking a specialist to carry out a task.
pub fn specialist_prompt(description: &str) -> (r: String)
    ensures
        r@ == specialist_prompt_of(description@),
{
    let mut r = String::new();
    push_str(&mut r, "You are a specialist agent. Execute the following task and provide a detailed result:\n\nTask: ");
    push_str(&mut r, description);
    push_str(&mut r, "\n\nProvide your specialized output.");
    r
}

/// The prompt asking the critic to review a result.
pub open spec fn review_prompt_of(task_id: Seq<char>, output: Seq<char>) -> Seq<char> {
    "Review the following task output for quality and correctness:\n\nTask ID: "@ + task_id + "\nOutput: "@ + output
        + "\n\nProvide:\n1. Rating (1-10)\n2. Comments\n3. Suggestions for improvement\n\nReturn JSON: {\"rating\": 8, \"comments\": \"...\", \"suggestions\": [\"...\"]}"@
}

/// The prompt asking the critic to review a result.
pub fn review_prompt(task_id: &str, output: &str) -> (r: String)
    ensures
        r@ == review_prompt_of(task_id@, output@),
{
    let mut r = String::new();
    push_str(&mut r, "Review the following task output for quality and correctness:\n\nTask ID: ");
    push_str(&mut r, task_id);
    push_str(&mut r, "\nOutput: ");
    push_str(&mut r, output);
    push_str(
        &mut r,
        "\n\nProvide:\n1. Rating (1-10)\n2. Comments\n3. Suggestions for improvement\n\nReturn JSON: {\"rating\": 8, \"comments\": \"...\", \"suggestions\": [\"...\"]}",
    );
    r
}

/// The prompt asking the integrator to combine the results.
pub open spec fn integration_prompt_of(results: Seq<char>) -> Seq<char> {
    "Integrate the following results from multiple specialist agents into a cohesive output:\n\nResults:\n"@ + results
        + "\n\nProvide a unified, coherent final output that combines all the specialist contributions."@
}

/// The prompt asking the integrator to combine the results.
pub fn integration_prompt(results: &str) -> (r: String)
    ensures
        r@ == integration_prompt_of(results@),
{
    let mut r = String::new();
    push_str(&mut r, "Integrate the following results from multiple specialist agents into a cohesive output:\n\nResults:\n");
    push_str(&mut r, results);
    push_str(&mut r, "\n\nProvide a unified, coherent final output that combines all the specialist contributions.");
    r
}

/// The task message the team starts from, posted to every agent.
pub fn task_message(description: String, id: String, timestamp: u64) -> (m: AgentMessage)
    ensures
        m.id == id,
        m.sender@ == "system"@,
        m.receiver is None,
        m.msg_type == MessageType::TaskAssignment,
        m.content matches MessageContent::Task { task_id, description: d, subtasks, priority } && task_id@ == "main"@
            && d == description && subtasks@.len() == 0 && priority == 5,
        m.timestamp == timestamp,
{
    AgentMessage {
        id,
        sender: "system".to_owned(),
        receiver: None,
        msg_type: MessageType::TaskAssignment,
        content: MessageContent::Task { task_id: "main".to_owned(), description, subtasks: Vec::new(), priority: 5 },
        timestamp,
    }
}

/// How one agent stands.
#[derive(Debug, Clone)]
pub struct AgentStatus {
    pub role: AgentRole,
    pub name: String,
    pub tasks_completed: u64,
    pub tasks_failed: u64,
    pub queue_length: u64,
}

/// How the team stands: its agents by id, and the tasks still pending.
#[derive(Debug, Clone)]
pub struct TeamStatus {
    pub team_id: String,
    pub protocol: CollaborationProtocol,
    pub agents: Vec<(String, AgentStatus)>,
    pub pending_tasks: u64,
}

} // verus!
