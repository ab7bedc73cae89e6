//! The decisions of one connection to Herdr: checking the handshake,
//! taking the snapshot, reacting to each subscription event, and the
//! reconnection delay.

use vstd::prelude::*;
use crate::agents::{cache_key, AgentKey, map_after_update, update_transition, AgentCache, AgentInfo, AgentState, TransitionKind};
use crate::config::{EventRules, ObservationConfig, ObservationMode};
use crate::pet::{
    detected_intent_made, lifecycle_intent_made, reconnected_intent_made, transition_intent_made, unchanged,
    IntentFactory, PetIntent,
};
use crate::protocol::{shown_agent, AgentRecord, AgentStatusData, EventMessage, PingResult, Snapshot, WorkspaceRecord};
use crate::text::{concat_str, decimal, decimal_string};

verus! {

/// Checks that Herdr answered a ping with a pong.
pub fn check_pong(pong: &PingResult) -> (r: Result<(), String>)
    ensures
        pong.kind@ == "pong"@ ==> r is Ok,
        pong.kind@ != "pong"@ ==> (r matches Err(m) && m@ == "unexpected Herdr ping response: "@ + pong.kind@),
{
    if !crate::config::str_equal(pong.kind.as_str(), "pong") {
        return Err(concat_str("unexpected Herdr ping response: ", pong.kind.as_str()));
    }
    Ok(())
}

/// The message when the protocol changed between ping and snapshot.
pub open spec fn protocol_changed_message(before: u32, after: u32) -> Seq<char> {
    "Herdr protocol changed during connection ("@ + decimal(before as nat) + " -> "@ + decimal(after as nat) + ")"@
}

/// The message when the version changed between ping and snapshot.
pub open spec fn version_changed_message(before: Seq<char>, after: Seq<char>) -> Seq<char> {
    "Herdr version changed during connection ("@ + before + " -> "@ + after + ")"@
}

/// Checks that the snapshot comes from the same Herdr as the ping: the
/// protocol first, then the version.
pub fn check_snapshot_matches(pong: &PingResult, snapshot: &Snapshot) -> (r: Result<(), String>)
    ensures
        pong.protocol != snapshot.protocol ==> (r matches Err(m) && m@ == protocol_changed_message(pong.protocol, snapshot.protocol)),
        pong.protocol == snapshot.protocol && pong.version@ != snapshot.version@ ==> (r matches Err(m)
            && m@ == version_changed_message(pong.version@, snapshot.version@)),
        pong.protocol == snapshot.protocol && pong.version@ == snapshot.version@ ==> r is Ok,
{
    if pong.protocol != snapshot.protocol {
        let m = concat_str("Herdr protocol changed during connection (", decimal_string(pong.protocol as u64).as_str());
        let m = concat_str(m.as_str(), " -> ");
        let m = concat_str(m.as_str(), decimal_string(snapshot.protocol as u64).as_str());
        return Err(concat_str(m.as_str(), ")"));
    }
    if !crate::config::str_equal(pong.version.as_str(), snapshot.version.as_str()) {
        let m = concat_str("Herdr version changed during connection (", pong.version.as_str());
        let m = concat_str(m.as_str(), " -> ");
        let m = concat_str(m.as_str(), snapshot.version.as_str());
        return Err(concat_str(m.as_str(), ")"));
    }
    Ok(())
}

/// The label of the first workspace with id `workspace_id`.
pub open spec fn workspace_label_of(workspaces: Seq<WorkspaceRecord>, workspace_id: Seq<char>) -> Option<String>
    decreases workspaces.len(),
{
    if workspaces.len() == 0 {
        None
    } else if workspaces[0].workspace_id@ == workspace_id {
        Some(workspaces[0].label)
    } else {
        workspace_label_of(workspaces.drop_first(), workspace_id)
    }
}

fn find_workspace_label(workspaces: &Vec<WorkspaceRecord>, workspace_id: &str) -> (r: Option<String>)
    ensures
        r == workspace_label_of(workspaces@, workspace_id@),
{
    let mut i: usize = 0;
    assert(workspaces@.skip(0) =~= workspaces@);
    while i < workspaces.len()
        invariant
            i <= workspaces@.len(),
            workspace_label_of(workspaces@, workspace_id@) == workspace_label_of(workspaces@.skip(i as int), workspace_id@),
        decreases workspaces@.len() - i,
    {
        assert(workspaces@.skip(i as int)[0] == workspaces@[i as int]);
        if crate::config::str_equal(workspaces[i].workspace_id.as_str(), workspace_id) {
            return Some(workspaces[i].label.clone());
        }
        assert(workspaces@.skip(i as int).drop_first() =~= workspaces@.skip(i + 1));
        i += 1;
    }
    None
}

/// `a` is the agent of `record` in `session_id`, labelled from the
/// snapshot's workspaces.
pub open spec fn snapshot_agent(record: AgentRecord, session_id: Seq<char>, workspaces: Seq<WorkspaceRecord>, a: AgentInfo) -> bool {
    &&& a.session_id@ == session_id
    &&& a.workspace_id == record.workspace_id
    &&& a.workspace_label == workspace_label_of(workspaces, record.workspace_id@)
    &&& a.pane_id == record.pane_id
    &&& a.agent == shown_agent(record.display_agent, record.agent)
    &&& a.title == record.title
    &&& a.state == record.agent_status
}

/// The agents of a snapshot that the observation scope includes, in the
/// snapshot's order.
pub fn snapshot_agents(snapshot: &Snapshot, session_id: &str, observation: &ObservationConfig) -> (r: Vec<AgentInfo>)
    ensures
        ({
            let kept = snapshot.agents@.filter(|a: AgentRecord| observation.includes_spec(a.workspace_id@, a.pane_id@));
            &&& r@.len() == kept.len()
            &&& forall|i: int| 0 <= i < r@.len() ==> snapshot_agent(kept[i], session_id@, snapshot.workspaces@, #[trigger] r@[i])
        }),
{
    let ghost keep = |a: AgentRecord| observation.includes_spec(a.workspace_id@, a.pane_id@);
    let mut r: Vec<AgentInfo> = Vec::new();
    proof {
        reveal(Seq::filter);
        assert(snapshot.agents@.take(0).filter(keep) =~= Seq::<AgentRecord>::empty());
    }
    for i in 0..snapshot.agents.len()
        invariant
            keep == (|a: AgentRecord| observation.includes_spec(a.workspace_id@, a.pane_id@)),
            r@.len() == snapshot.agents@.take(i as int).filter(keep).len(),
            forall|j: int| 0 <= j < r@.len() ==> snapshot_agent(snapshot.agents@.take(i as int).filter(keep)[j], session_id@, snapshot.workspaces@, #[trigger] r@[j]),
    {
        let record = &snapshot.agents[i];
        proof {
            reveal(Seq::filter);
            assert(snapshot.agents@.take(i + 1).drop_last() =~= snapshot.agents@.take(i as int));
        }
        if observation.includes(record.workspace_id.as_str(), record.pane_id.as_str()) {
            let label = find_workspace_label(&snapshot.workspaces, record.workspace_id.as_str());
            let agent = AgentInfo {
                session_id: session_id.to_owned(),
                workspace_id: record.workspace_id.clone(),
                workspace_label: label,
                pane_id: record.pane_id.clone(),
                agent: match &record.display_agent {
                    Some(d) => Some(d.clone()),
                    None => crate::text::clone_option(&record.agent),
                },
                title: crate::text::clone_option(&record.title),
                state: record.agent_status,
            };
            r.push(agent);
        }
    }
    assert(snapshot.agents@.take(snapshot.agents@.len() as int) =~= snapshot.agents@);
    r
}

/// The ids of the snapshot's panes, in order.
pub fn snapshot_pane_ids(snapshot: &Snapshot) -> (r: Vec<String>)
    ensures
        r@.len() == snapshot.panes@.len(),
        forall|i: int| 0 <= i < r@.len() ==> #[trigger] r@[i] == snapshot.panes@[i].id,
{
    let mut r: Vec<String> = Vec::new();
    for i in 0..snapshot.panes.len()
        invariant
            r@.len() == i,
            forall|j: int| 0 <= j < i ==> #[trigger] r@[j] == snapshot.panes@[j].id,
    {
        r.push(snapshot.panes[i].id.clone());
    }
    r
}

/// The intent played once connected: the reconnection intent, unless the
/// pet is in quiet mode.
pub fn connected_intent(intents: &mut IntentFactory, observation: &ObservationConfig, rules: &EventRules, now: u128) -> (r: Option<PetIntent>)
    requires
        old(intents).wf(),
        old(intents).last_id() < u64::MAX,
    ensures
        final(intents).wf(),
        observation.mode == ObservationMode::Quiet ==> r is None && unchanged(*old(intents), *final(intents)),
        observation.mode != ObservationMode::Quiet ==> reconnected_intent_made(*old(intents), *final(intents), *rules, now, r),
{
    if observation.quiet() {
        return None;
    }
    intents.reconnected_at(rules, now)
}

/// How the shared runtime view is refreshed after an event.
#[derive(Debug, Clone, Copy, PartialEq, Eq, Structural)]
pub enum RuntimeRefresh {
    /// Nothing changed that the view shows.
    Unchanged,
    /// Refresh soon, together with other changes.
    Queued,
    /// Refresh before going on.
    Immediate,
}

/// What to do after an event.
pub struct EventOutcome {
    /// The event's kind, for the metrics.
    pub kind: &'static str,
    /// The intent to play, if any.
    pub intent: Option<PetIntent>,
    pub refresh: RuntimeRefresh,
    /// Whether to take a new snapshot and subscribe again.
    pub resubscribe: bool,
}

/// The kind recorded for an event.
pub open spec fn event_kind(e: EventMessage) -> Seq<char> {
    match e {
        EventMessage::AgentStatus(_) => "pane.agent_status_changed"@,
        EventMessage::PaneExited(_) => "pane.exited"@,
        EventMessage::PaneClosed(_) => "pane.closed"@,
        EventMessage::PaneCreated(_) => "pane.created"@,
        EventMessage::AgentDetected(_) => "agent.detected"@,
        EventMessage::Other => "other"@,
    }
}

/// `a` is the agent of a status event in `session_id`, without a
/// workspace label.
pub open spec fn status_agent(d: AgentStatusData, session_id: Seq<char>, a: AgentInfo) -> bool {
    &&& a.session_id@ == session_id
    &&& a.workspace_id == d.workspace_id
    &&& a.workspace_label is None
    &&& a.pane_id == d.pane_id
    &&& a.agent == shown_agent(d.display_agent, d.agent)
    &&& a.title == d.title
    &&& a.state == d.agent_status
}

/// Whether quiet mode lets a transition through: completions and requests
/// for attention.
pub open spec fn quiet_passes(t: TransitionKind) -> bool {
    t == TransitionKind::TurnCompleted || t == TransitionKind::TurnCompletedBackground
        || t == TransitionKind::AttentionRequested
}

/// The reaction to one event at `now`, given the cache and intents before
/// (`old_*`) and after (`new_*`) it.
pub open spec fn event_handled(
    old_agents: Map<AgentKey, AgentInfo>,
    new_agents: Map<AgentKey, AgentInfo>,
    old_intents: IntentFactory,
    new_intents: IntentFactory,
    observation: ObservationConfig,
    rules: EventRules,
    session_id: Seq<char>,
    event: EventMessage,
    now: u128,
    r: EventOutcome,
) -> bool {
    let quiet = observation.mode == ObservationMode::Quiet;
    &&& r.kind@ == event_kind(event)
    &&& match event {
        EventMessage::AgentStatus(d) => {
            &&& r.refresh == RuntimeRefresh::Queued
            &&& !r.resubscribe
            &&& if !observation.includes_spec(d.workspace_id@, d.pane_id@) {
                &&& new_agents == old_agents.remove(cache_key(session_id, d.pane_id@))
                &&& r.intent is None
                &&& unchanged(old_intents, new_intents)
            } else {
                exists|a: AgentInfo| #[trigger] status_agent(d, session_id, a)
                    && new_agents == map_after_update(old_agents, a)
                    && match update_transition(old_agents, a) {
                        Some(t) => if quiet && !quiet_passes(t) {
                            r.intent is None && unchanged(old_intents, new_intents)
                        } else {
                            transition_intent_made(old_intents, new_intents, t, a, rules, now, r.intent)
                        },
                        None => r.intent is None && unchanged(old_intents, new_intents),
                    }
            }
        },
        EventMessage::PaneExited(d) | EventMessage::PaneClosed(d) => {
            let key = cache_key(session_id, d.pane_id@);
            &&& new_agents == old_agents.remove(key)
            &&& r.refresh == RuntimeRefresh::Immediate
            &&& r.resubscribe
            &&& if old_agents.contains_key(key) && !quiet {
                lifecycle_intent_made(old_intents, new_intents, "agent_exited"@, 40, Some(old_agents[key]), rules.agent_exited, now, r.intent)
            } else {
                r.intent is None && unchanged(old_intents, new_intents)
            }
        },
        EventMessage::PaneCreated(d) | EventMessage::AgentDetected(d) => {
            &&& new_agents == old_agents
            &&& r.refresh == RuntimeRefresh::Unchanged
            &&& r.resubscribe
            &&& if quiet {
                r.intent is None && unchanged(old_intents, new_intents)
            } else {
                detected_intent_made(old_intents, new_intents, d.pane_id@, rules, now, r.intent)
            }
        },
        EventMessage::Other => {
            &&& new_agents == old_agents
            &&& r.refresh == RuntimeRefresh::Unchanged
            &&& !r.resubscribe
            &&& r.intent is None
            &&& unchanged(old_intents, new_intents)
        },
    }
}

/// Quiet mode mutes only agents starting work: a status event that does
/// not report work (a finished turn, a request for attention, ...) gets in
/// quiet mode exactly the reaction it gets with every agent observed.
pub proof fn law_quiet_mode_keeps_all_but_starts(
    old_agents: Map<AgentKey, AgentInfo>,
    new_agents: Map<AgentKey, AgentInfo>,
    old_intents: IntentFactory,
    new_intents: IntentFactory,
    quiet: ObservationConfig,
    all: ObservationConfig,
    rules: EventRules,
    session_id: Seq<char>,
    d: AgentStatusData,
    now: u128,
    r: EventOutcome,
)
    requires
        quiet.mode == ObservationMode::Quiet,
        all.mode == ObservationMode::All,
        d.agent_status != AgentState::Working,
    ensures
        event_handled(old_agents, new_agents, old_intents, new_intents, quiet, rules, session_id,
            EventMessage::AgentStatus(d), now, r)
        == event_handled(old_agents, new_agents, old_intents, new_intents, all, rules, session_id,
            EventMessage::AgentStatus(d), now, r),
{
    assert forall|a: AgentInfo| #[trigger] status_agent(d, session_id, a) implies (match update_transition(old_agents, a) {
        Some(t) => quiet_passes(t),
        None => true,
    }) by {
        assert(a.state == d.agent_status);
    }
}

/// In quiet mode a status event that reports work makes no intent and
/// leaves the intent factory as it was.
pub proof fn law_quiet_mode_mutes_starts(
    old_agents: Map<AgentKey, AgentInfo>,
    new_agents: Map<AgentKey, AgentInfo>,
    old_intents: IntentFactory,
    new_intents: IntentFactory,
    quiet: ObservationConfig,
    rules: EventRules,
    session_id: Seq<char>,
    d: AgentStatusData,
    now: u128,
    r: EventOutcome,
)
    requires
        quiet.mode == ObservationMode::Quiet,
        d.agent_status == AgentState::Working,
        event_handled(old_agents, new_agents, old_intents, new_intents, quiet, rules, session_id,
            EventMessage::AgentStatus(d), now, r),
    ensures
        r.intent is None,
        unchanged(old_intents, new_intents),
{
    let a = choose|a: AgentInfo| #[trigger] status_agent(d, session_id, a)
        && new_agents == map_after_update(old_agents, a)
        && match update_transition(old_agents, a) {
            Some(t) => if !quiet_passes(t) {
                r.intent is None && unchanged(old_intents, new_intents)
            } else {
                transition_intent_made(old_intents, new_intents, t, a, rules, now, r.intent)
            },
            None => r.intent is None && unchanged(old_intents, new_intents),
        };
    assert(a.state == AgentState::Working);
}

/// Updates the cache and makes the intent for one subscription event at
/// `now` (a reading of the intent factory's clock).
pub fn handle_event(
    agents: &mut AgentCache,
    intents: &mut IntentFactory,
    observation: &ObservationConfig,
    rules: &EventRules,
    session_id: &str,
    event: EventMessage,
    now: u128,
) -> (r: EventOutcome)
    requires
        old(agents).wf(),
        old(intents).wf(),
        old(intents).last_id() < u64::MAX,
    ensures
        final(agents).wf(),
        final(intents).wf(),
        event_handled(old(agents)@, final(agents)@, *old(intents), *final(intents), *observation, *rules, session_id@, event, now, r),
{
    let ghost event_in = event;
    match event {
        EventMessage::AgentStatus(data) => {
            let ghost d = data;
            let agent = data.into_agent_info(session_id, None);
            if !observation.includes(agent.workspace_id.as_str(), agent.pane_id.as_str()) {
                agents.remove(agent.session_id.as_str(), agent.pane_id.as_str());
                return EventOutcome { kind: "pane.agent_status_changed", intent: None, refresh: RuntimeRefresh::Queued, resubscribe: false };
            }
            let stored = agent.duplicate();
            let ghost before = agents@;
            let transition = agents.update(stored);
            assert(status_agent(d, session_id@, agent));
            let intent = match transition {
                Some(t) => {
                    if observation.quiet() && !(t == TransitionKind::TurnCompleted || t == TransitionKind::TurnCompletedBackground
                        || t == TransitionKind::AttentionRequested) {
                        None
                    } else {
                        intents.create_from_transition_at(t, &agent, rules, now)
                    }
                },
                None => None,
            };
            EventOutcome { kind: "pane.agent_status_changed", intent, refresh: RuntimeRefresh::Queued, resubscribe: false }
        },
        EventMessage::PaneExited(data) => {
            let removed = agents.remove(session_id, data.pane_id.as_str());
            let intent = match removed {
                Some(agent) => if observation.quiet() {
                    None
                } else {
                    intents.agent_exited_at(&agent, rules, now)
                },
                None => None,
            };
            EventOutcome { kind: "pane.exited", intent, refresh: RuntimeRefresh::Immediate, resubscribe: true }
        },
        EventMessage::PaneClosed(data) => {
            let removed = agents.remove(session_id, data.pane_id.as_str());
            let intent = match removed {
                Some(agent) => if observation.quiet() {
                    None
                } else {
                    intents.agent_exited_at(&agent, rules, now)
                },
                None => None,
            };
            EventOutcome { kind: "pane.closed", intent, refresh: RuntimeRefresh::Immediate, resubscribe: true }
        },
        EventMessage::PaneCreated(data) => {
            let intent = if observation.quiet() {
                None
            } else {
                intents.agent_detected_at(data.pane_id.as_str(), rules, now)
            };
            EventOutcome { kind: "pane.created", intent, refresh: RuntimeRefresh::Unchanged, resubscribe: true }
        },
        EventMessage::AgentDetected(data) => {
            let intent = if observation.quiet() {
                None
            } else {
                intents.agent_detected_at(data.pane_id.as_str(), rules, now)
            };
            EventOutcome { kind: "agent.detected", intent, refresh: RuntimeRefresh::Unchanged, resubscribe: true }
        },
        EventMessage::Other => EventOutcome { kind: "other", intent: None, refresh: RuntimeRefresh::Unchanged, resubscribe: false },
    }
}

/// The delays between reconnection attempts, in milliseconds.
pub open spec fn retry_delay(attempt: nat) -> u64 {
    if attempt == 0 {
        250
    } else if attempt == 1 {
        500
    } else if attempt == 2 {
        1_000
    } else if attempt == 3 {
        2_000
    } else if attempt == 4 {
        5_000
    } else {
        10_000
    }
}

/// The delay before the next attempt after failed attempt number
/// `attempt`, and the attempt number to use after that (capped at 5).
pub fn next_retry(attempt: usize) -> (r: (u64, usize))
    requires
        attempt < usize::MAX,
    ensures
        r.0 == retry_delay(attempt as nat),
        r.1 == if attempt + 1 < 5 { attempt + 1 } else { 5 },
{
    let delays: [u64; 6] = [250, 500, 1_000, 2_000, 5_000, 10_000];
    let index = if attempt < 5 { attempt } else { 5 };
    let delay = delays[index];
    let next = if attempt + 1 < 5 { attempt + 1 } else { 5 };
    (delay, next)
}

/// What happens to the connection loop: a session ran and ended (the
/// topology changed, or a reconnect was asked for while connected), an
/// attempt failed, or a reconnect was asked for while waiting to retry.
#[derive(Debug, Clone, Copy, PartialEq, Eq, Structural)]
pub enum BackoffEvent {
    SessionEnded,
    Failed,
    ReconnectRequested,
}

/// The attempt number after `event`, and the delay to wait when it is a
/// failure: a failure waits by its attempt number and moves one attempt up
/// (at most to 5); a session that ran, or a reconnect request, starts again
/// from the first attempt.
pub open spec fn backoff_after(attempt: nat, event: BackoffEvent) -> (nat, Option<u64>) {
    match event {
        BackoffEvent::Failed => (if attempt + 1 < 5 { (attempt + 1) as nat } else { 5nat }, Some(retry_delay(attempt))),
        _ => (0nat, None),
    }
}

/// The connection loop's next attempt number, and the delay before it.
pub fn backoff_step(attempt: usize, event: BackoffEvent) -> (r: (usize, Option<u64>))
    requires
        attempt < usize::MAX,
    ensures
        r.0 as nat == backoff_after(attempt as nat, event).0,
        r.1 == backoff_after(attempt as nat, event).1,
{
    match event {
        BackoffEvent::Failed => {
            let (delay, next) = next_retry(attempt);
            (next, Some(delay))
        },
        _ => (0, None),
    }
}

/// The attempt number after `k` failures in a row from a fresh start.
pub open spec fn attempt_after_failures(k: nat) -> nat
    decreases k,
{
    if k == 0 {
        0
    } else {
        backoff_after(attempt_after_failures((k - 1) as nat), BackoffEvent::Failed).0
    }
}

/// Failures in a row wait 250, 500, 1000, 2000 and 5000 ms, then 10 s each
/// time: the failure after `k` others waits `retry_delay(min(k, 5))`, never
/// more than 10 s.
pub proof fn law_failures_back_off(k: nat)
    ensures
        attempt_after_failures(k) == if k < 5 { k } else { 5 },
        backoff_after(attempt_after_failures(k), BackoffEvent::Failed).1
            == Some(retry_delay(if k < 5 { k } else { 5 })),
        retry_delay(if k < 5 { k } else { 5 }) <= 10_000,
    decreases k,
{
    if k > 0 {
        law_failures_back_off((k - 1) as nat);
    }
}

/// A session that ran, or a reconnect request, restarts the backoff: the
/// next failure waits 250 ms.
pub proof fn law_backoff_restarts(attempt: nat, event: BackoffEvent)
    requires
        event != BackoffEvent::Failed,
    ensures
        backoff_after(attempt, event).0 == 0,
        backoff_after(backoff_after(attempt, event).0, BackoffEvent::Failed).1 == Some(250u64),
{
}

} // verus!
