//! Pet intents: what the pet plays and says when an agent changes state or
//! the connection comes back, with a cooldown per event and pane.

use std::time::Instant;
use vstd::prelude::*;
use crate::agents::{AgentInfo, AgentState, TransitionKind};
use crate::config::{opt_view, EventRule, EventRules};
use crate::text::{clone_option, concat_str, decimal, decimal_string, push_char, replace_all, replace_str};

verus! {

/// `std::time::Instant`, a reading of the monotonic clock, carried as an
/// opaque value.
#[verifier::external_type_specification]
#[verifier::external_body]
pub struct ExInstant(std::time::Instant);

/// `Instant::now` from std: a reading of the monotonic clock. Nothing is
/// stated of it.
#[verifier::external_body]
fn monotonic_now() -> Instant {
    Instant::now()
}

/// `Instant::elapsed` from std, in nanoseconds: the time since `origin` on
/// the monotonic clock. It depends on the clock, so nothing is stated of it.
#[verifier::external_body]
fn nanos_since(origin: &Instant) -> u128 {
    origin.elapsed().as_nanos()
}

/// One thing for the pet to play.
#[derive(Debug, Clone)]
pub struct PetIntent {
    pub id: u64,
    pub kind: &'static str,
    pub animation: String,
    pub priority: u8,
    pub duration_ms: u64,
    pub bubble: Option<String>,
    pub bubble_template: Option<String>,
    pub count: u32,
    pub agent_names: Vec<String>,
    pub workspace_ids: Vec<String>,
}

/// A bubble template with `{agent}`, `{workspace}` and `{count}` filled in,
/// in that order.
pub open spec fn bubble_text(template: Seq<char>, agent: Seq<char>, workspace: Seq<char>, count: nat) -> Seq<char> {
    replace_all(replace_all(replace_all(template, "{agent}"@, agent), "{workspace}"@, workspace), "{count}"@, decimal(count))
}

pub fn render_bubble(template: &str, agent: &str, workspace: &str, count: u32) -> (r: String)
    ensures
        r@ == bubble_text(template@, agent@, workspace@, count as nat),
{
    proof {
        reveal_strlit("{agent}");
        reveal_strlit("{workspace}");
        reveal_strlit("{count}");
    }
    let with_agent = replace_str(template, "{agent}", agent);
    let with_workspace = replace_str(with_agent.as_str(), "{workspace}", workspace);
    let digits = decimal_string(count as u64);
    replace_str(with_workspace.as_str(), "{count}", digits.as_str())
}

pub open spec fn strings_view(s: Seq<String>) -> Seq<Seq<char>> {
    s.map_values(|x: String| x@)
}

/// The time from `previous` to `now`, or zero when `now` is earlier.
pub open spec fn elapsed_nanos(previous: u128, now: u128) -> int {
    if now >= previous {
        now - previous
    } else {
        0
    }
}

/// Whether an event under `key` at `now` falls within the cooldown of the
/// last one emitted under that key.
pub open spec fn cooling_down(m: Map<Seq<char>, u128>, key: Seq<char>, now: u128, cooldown_ms: u64) -> bool {
    m.contains_key(key) && elapsed_nanos(m[key], now) < cooldown_ms * 1_000_000
}

/// `i` is the intent with these parts.
pub open spec fn intent_is(
    i: PetIntent,
    id: u64,
    kind: Seq<char>,
    priority: u8,
    rule: EventRule,
    name: Seq<char>,
    workspace: Seq<char>,
    names: Seq<Seq<char>>,
    workspaces: Seq<Seq<char>>,
) -> bool {
    &&& i.id == id
    &&& i.kind@ == kind
    &&& i.animation@ == rule.animation@
    &&& i.priority == priority
    &&& i.duration_ms == rule.duration_ms
    &&& opt_view(i.bubble) == if rule.bubble@.len() == 0 {
        None
    } else {
        Some(bubble_text(rule.bubble@, name, workspace, 1))
    }
    &&& opt_view(i.bubble_template) == if rule.bubble@.len() == 0 {
        None
    } else {
        Some(rule.bubble@)
    }
    &&& i.count == 1
    &&& strings_view(i.agent_names@) == names
    &&& strings_view(i.workspace_ids@) == workspaces
}

/// The name shown for an agent: its name, or `"Agent"`.
pub open spec fn agent_name(agent: AgentInfo) -> Seq<char> {
    match agent.agent {
        Some(name) => name@,
        None => "Agent"@,
    }
}

/// The cooldown key of a transition: `kind:session:pane`.
pub open spec fn transition_key(kind: Seq<char>, agent: AgentInfo) -> Seq<char> {
    kind + ":"@ + agent.session_id@ + ":"@ + agent.pane_id@
}

/// The cooldown key of a lifecycle event: `kind:pane`, or `kind:global`
/// without an agent.
pub open spec fn lifecycle_key(kind: Seq<char>, agent: Option<AgentInfo>) -> Seq<char> {
    kind + ":"@ + match agent {
        Some(a) => a.pane_id@,
        None => "global"@,
    }
}

pub open spec fn lifecycle_name(agent: Option<AgentInfo>) -> Seq<char> {
    match agent {
        Some(a) => agent_name(a),
        None => "Agent"@,
    }
}

pub open spec fn lifecycle_workspace(agent: Option<AgentInfo>) -> Seq<char> {
    match agent {
        Some(a) => a.workspace_id@,
        None => ""@,
    }
}

/// The event name, priority and rule of a transition.
pub open spec fn transition_kind_name(t: TransitionKind) -> Seq<char> {
    match t {
        TransitionKind::AgentStarted => "agent_started"@,
        TransitionKind::TurnCompleted => "turn_completed"@,
        TransitionKind::TurnCompletedBackground => "turn_completed_background"@,
        TransitionKind::AttentionRequested => "attention_requested"@,
    }
}

pub open spec fn transition_priority(t: TransitionKind) -> u8 {
    match t {
        TransitionKind::AgentStarted => 50,
        TransitionKind::TurnCompleted => 70,
        TransitionKind::TurnCompletedBackground => 70,
        TransitionKind::AttentionRequested => 100,
    }
}

pub open spec fn transition_rule(t: TransitionKind, rules: EventRules) -> EventRule {
    match t {
        TransitionKind::AgentStarted => rules.agent_started,
        TransitionKind::TurnCompleted => rules.turn_completed,
        TransitionKind::TurnCompletedBackground => rules.turn_completed,
        TransitionKind::AttentionRequested => rules.attention_requested,
    }
}

/// The factory did not change.
pub open spec fn unchanged(old: IntentFactory, new: IntentFactory) -> bool {
    new.last_id() == old.last_id() && new.cooldowns() == old.cooldowns()
}

/// An intent was made under `key` exactly when the rule is enabled and its
/// cooldown has passed; making one records `now` and takes the next id.
pub open spec fn emitted_under(old: IntentFactory, new: IntentFactory, key: Seq<char>, rule: EventRule, now: u128, r: Option<PetIntent>) -> bool {
    match r {
        Some(_) => rule.enabled && !cooling_down(old.cooldowns(), key, now, rule.cooldown_ms)
            && new.last_id() == old.last_id() + 1 && new.cooldowns() == old.cooldowns().insert(key, now),
        None => (!rule.enabled || cooling_down(old.cooldowns(), key, now, rule.cooldown_ms)) && unchanged(old, new),
    }
}

/// `r` is what the factory makes for `transition` of `agent` at `now`.
pub open spec fn transition_intent_made(
    old: IntentFactory,
    new: IntentFactory,
    transition: TransitionKind,
    agent: AgentInfo,
    rules: EventRules,
    now: u128,
    r: Option<PetIntent>,
) -> bool {
    let kind = transition_kind_name(transition);
    let rule = transition_rule(transition, rules);
    &&& emitted_under(old, new, transition_key(kind, agent), rule, now, r)
    &&& r matches Some(i) ==> intent_is(i, (old.last_id() + 1) as u64, kind, transition_priority(transition), rule,
        agent_name(agent), agent.workspace_id@, seq![agent_name(agent)], seq![agent.workspace_id@])
}

/// `r` is what the factory makes for the lifecycle event `kind` of `agent`
/// (or of the whole session) at `now`.
pub open spec fn lifecycle_intent_made(
    old: IntentFactory,
    new: IntentFactory,
    kind: Seq<char>,
    priority: u8,
    agent: Option<AgentInfo>,
    rule: EventRule,
    now: u128,
    r: Option<PetIntent>,
) -> bool {
    let workspace = lifecycle_workspace(agent);
    &&& emitted_under(old, new, lifecycle_key(kind, agent), rule, now, r)
    &&& r matches Some(i) ==> intent_is(i, (old.last_id() + 1) as u64, kind, priority, rule, lifecycle_name(agent),
        workspace, if agent is Some { seq![lifecycle_name(agent)] } else { Seq::empty() },
        if workspace.len() == 0 { Seq::empty() } else { seq![workspace] })
}

/// `r` is what the factory makes at `now` for an agent detected in `pane_id`.
pub open spec fn detected_intent_made(old: IntentFactory, new: IntentFactory, pane_id: Seq<char>, rules: EventRules, now: u128, r: Option<PetIntent>) -> bool {
    &&& emitted_under(old, new, "agent_detected"@ + ":"@ + pane_id, rules.agent_detected, now, r)
    &&& r matches Some(i) ==> intent_is(i, (old.last_id() + 1) as u64, "agent_detected"@, 60, rules.agent_detected,
        "Agent"@, ""@, seq!["Agent"@], Seq::empty())
}

/// `r` is what the factory makes at `now` when the connection comes back.
pub open spec fn reconnected_intent_made(old: IntentFactory, new: IntentFactory, rules: EventRules, now: u128, r: Option<PetIntent>) -> bool {
    &&& emitted_under(old, new, "reconnected:global"@, rules.reconnected, now, r)
    &&& r matches Some(i) ==> intent_is(i, (old.last_id() + 1) as u64, "reconnected"@, 40, rules.reconnected,
        "Agent"@, ""@, Seq::empty(), Seq::empty())
}

/// Makes pet intents and remembers, per cooldown key, when it last made one.
pub struct IntentFactory {
    next_id: u64,
    keys: Vec<String>,
    emitted_at: Vec<u128>,
    origin: Instant,
}

spec fn stamp_listed(keys: Seq<String>, k: Seq<char>) -> bool {
    exists|i: int| 0 <= i < keys.len() && #[trigger] keys[i]@ == k
}

spec fn stamps_distinct(keys: Seq<String>) -> bool {
    forall|i: int, j: int| 0 <= i < keys.len() && 0 <= j < keys.len() && i != j ==> #[trigger] keys[i]@ != #[trigger] keys[j]@
}

spec fn stamp_map(keys: Seq<String>, at: Seq<u128>) -> Map<Seq<char>, u128> {
    Map::new(
        |k: Seq<char>| stamp_listed(keys, k),
        |k: Seq<char>| at[choose|i: int| 0 <= i < keys.len() && #[trigger] keys[i]@ == k],
    )
}

proof fn lemma_stamp_at(keys: Seq<String>, at: Seq<u128>, i: int)
    requires
        stamps_distinct(keys),
        0 <= i < keys.len(),
    ensures
        stamp_map(keys, at).contains_key(keys[i]@),
        stamp_map(keys, at)[keys[i]@] == at[i],
{
    let k = keys[i]@;
    assert(stamp_listed(keys, k));
    let j = choose|j: int| 0 <= j < keys.len() && #[trigger] keys[j]@ == k;
    assert(j == i);
}

proof fn lemma_stamp_set(keys: Seq<String>, at: Seq<u128>, i: int, t: u128)
    requires
        stamps_distinct(keys),
        keys.len() == at.len(),
        0 <= i < keys.len(),
    ensures
        stamp_map(keys, at.update(i, t)) =~= stamp_map(keys, at).insert(keys[i]@, t),
{
    let at2 = at.update(i, t);
    assert forall|k: Seq<char>| #[trigger] stamp_map(keys, at2).contains_key(k) implies stamp_map(keys, at2)[k] == stamp_map(keys, at).insert(keys[i]@, t)[k] by {
        let j = choose|j: int| 0 <= j < keys.len() && #[trigger] keys[j]@ == k;
        lemma_stamp_at(keys, at2, j);
        lemma_stamp_at(keys, at, j);
    }
    assert forall|k: Seq<char>| #[trigger] stamp_map(keys, at2).contains_key(k) == stamp_map(keys, at).insert(keys[i]@, t).contains_key(k) by {
        if k == keys[i]@ {
            assert(stamp_listed(keys, k));
        }
    }
}

proof fn lemma_stamp_push(keys: Seq<String>, at: Seq<u128>, key: String, t: u128)
    requires
        stamps_distinct(keys),
        keys.len() == at.len(),
        !stamp_listed(keys, key@),
    ensures
        stamps_distinct(keys.push(key)),
        stamp_map(keys.push(key), at.push(t)) =~= stamp_map(keys, at).insert(key@, t),
{
    let k2 = keys.push(key);
    let a2 = at.push(t);
    assert forall|i: int, j: int| 0 <= i < k2.len() && 0 <= j < k2.len() && i != j implies #[trigger] k2[i]@ != #[trigger] k2[j]@ by {
        if i < keys.len() && j < keys.len() {
            assert(keys[i]@ != keys[j]@);
        } else if i < keys.len() {
            assert(k2[i] == keys[i]);
        } else {
            assert(k2[j] == keys[j]);
        }
    }
    assert forall|k: Seq<char>| #[trigger] stamp_map(k2, a2).contains_key(k) == stamp_map(keys, at).insert(key@, t).contains_key(k) by {
        if stamp_listed(keys, k) {
            let i = choose|i: int| 0 <= i < keys.len() && #[trigger] keys[i]@ == k;
            assert(k2[i] == keys[i]);
        }
        if stamp_listed(k2, k) {
            let i = choose|i: int| 0 <= i < k2.len() && #[trigger] k2[i]@ == k;
            if i < keys.len() {
                assert(k2[i] == keys[i]);
            }
        }
        if k == key@ {
            assert(k2[keys.len() as int]@ == k);
        }
    }
    assert forall|k: Seq<char>| #[trigger] stamp_map(k2, a2).contains_key(k) implies stamp_map(k2, a2)[k] == stamp_map(keys, at).insert(key@, t)[k] by {
        let i = choose|i: int| 0 <= i < k2.len() && #[trigger] k2[i]@ == k;
        lemma_stamp_at(k2, a2, i);
        if i < keys.len() {
            assert(k2[i] == keys[i]);
            lemma_stamp_at(keys, at, i);
        }
    }
}

impl IntentFactory {
    pub closed spec fn wf(&self) -> bool {
        &&& self.keys@.len() == self.emitted_at@.len()
        &&& stamps_distinct(self.keys@)
    }

    /// The id of the last intent made (0 before the first).
    pub closed spec fn last_id(&self) -> u64 {
        self.next_id
    }

    /// When an intent was last made under each cooldown key, in nanoseconds
    /// of the factory's monotonic clock.
    pub closed spec fn cooldowns(&self) -> Map<Seq<char>, u128> {
        stamp_map(self.keys@, self.emitted_at@)
    }

    /// A factory that has made no intent yet.
    pub fn new() -> (r: IntentFactory)
        ensures
            r.wf(),
            r.last_id() == 0,
            r.cooldowns() == Map::<Seq<char>, u128>::empty(),
    {
        let r = IntentFactory { next_id: 0, keys: Vec::new(), emitted_at: Vec::new(), origin: monotonic_now() };
        assert(r.cooldowns() =~= Map::<Seq<char>, u128>::empty());
        r
    }

    /// The reading of the factory's monotonic clock, in nanoseconds since
    /// the factory was made. It depends on the clock, so nothing is stated.
    pub fn clock(&self) -> u128 {
        nanos_since(&self.origin)
    }

    /// The id of the last intent made.
    pub fn last_intent_id(&self) -> (r: u64)
        ensures
            r == self.last_id(),
    {
        self.next_id
    }

    fn lookup(&self, key: &String) -> (r: Option<usize>)
        requires
            self.wf(),
        ensures
            match r {
                Some(i) => i < self.keys@.len() && self.keys@[i as int]@ == key@ && self.cooldowns().contains_key(key@)
                    && self.cooldowns()[key@] == self.emitted_at@[i as int],
                None => !self.cooldowns().contains_key(key@),
            },
    {
        let mut i: usize = 0;
        while i < self.keys.len()
            invariant
                self.wf(),
                i <= self.keys@.len(),
                forall|j: int| 0 <= j < i ==> #[trigger] self.keys@[j]@ != key@,
            decreases self.keys@.len() - i,
        {
            if self.keys[i] == *key {
                proof {
                    lemma_stamp_at(self.keys@, self.emitted_at@, i as int);
                }
                return Some(i);
            }
            i += 1;
        }
        None
    }

    /// Checks the cooldown of `key` at `now` and, when it has passed, records
    /// `now` under `key` and takes the next id.
    fn take_slot(&mut self, key: String, now: u128, cooldown_ms: u64) -> (r: Option<u64>)
        requires
            old(self).wf(),
            old(self).last_id() < u64::MAX,
        ensures
            final(self).wf(),
            match r {
                Some(id) => !cooling_down(old(self).cooldowns(), key@, now, cooldown_ms)
                    && id == old(self).last_id() + 1
                    && final(self).last_id() == id
                    && final(self).cooldowns() == old(self).cooldowns().insert(key@, now),
                None => cooling_down(old(self).cooldowns(), key@, now, cooldown_ms)
                    && final(self).last_id() == old(self).last_id()
                    && final(self).cooldowns() == old(self).cooldowns(),
            },
    {
        let window: u128 = (cooldown_ms as u128) * 1_000_000;
        match self.lookup(&key) {
            Some(i) => {
                let previous = self.emitted_at[i];
                let elapsed: u128 = if now >= previous { now - previous } else { 0 };
                if elapsed < window {
                    return None;
                }
                proof {
                    lemma_stamp_set(self.keys@, self.emitted_at@, i as int, now);
                }
                self.emitted_at.set(i, now);
            },
            None => {
                proof {
                    lemma_stamp_push(self.keys@, self.emitted_at@, key, now);
                }
                self.keys.push(key);
                self.emitted_at.push(now);
            },
        }
        self.next_id = self.next_id + 1;
        Some(self.next_id)
    }

    /// The lifecycle intent `kind` for `agent` (or for the whole session) at
    /// `now`, unless the rule is disabled or its cooldown has not passed.
    pub fn create_lifecycle(
        &mut self,
        kind: &'static str,
        priority: u8,
        agent: Option<&AgentInfo>,
        rule: &EventRule,
        now: u128,
    ) -> (r: Option<PetIntent>)
        requires
            old(self).wf(),
            old(self).last_id() < u64::MAX,
        ensures
            final(self).wf(),
            lifecycle_intent_made(*old(self), *final(self), kind@, priority, match agent {
                Some(a) => Some(*a),
                None => None,
            }, *rule, now, r),
    {
        if !rule.enabled {
            return None;
        }
        let mut key = concat_str(kind, ":");
        let target: &str = match agent {
            Some(a) => a.pane_id.as_str(),
            None => "global",
        };
        key = concat_str(key.as_str(), target);
        proof {
            reveal_strlit(":");
        }
        let id = match self.take_slot(key, now, rule.cooldown_ms) {
            Some(id) => id,
            None => return None,
        };
        let name: String = match agent {
            Some(a) => match &a.agent {
                Some(n) => n.clone(),
                None => "Agent".to_owned(),
            },
            None => "Agent".to_owned(),
        };
        let workspace: String = match agent {
            Some(a) => a.workspace_id.clone(),
            None => "".to_owned(),
        };
        let bubble_empty = rule.bubble.as_str().is_empty();
        let bubble = if bubble_empty {
            None
        } else {
            Some(render_bubble(rule.bubble.as_str(), name.as_str(), workspace.as_str(), 1))
        };
        let bubble_template = if bubble_empty {
            None
        } else {
            Some(rule.bubble.clone())
        };
        let mut agent_names: Vec<String> = Vec::new();
        if agent.is_some() {
            agent_names.push(name);
        }
        let mut workspace_ids: Vec<String> = Vec::new();
        if !workspace.as_str().is_empty() {
            workspace_ids.push(workspace);
        }
        let intent = PetIntent {
            id,
            kind,
            animation: rule.animation.clone(),
            priority,
            duration_ms: rule.duration_ms,
            bubble,
            bubble_template,
            count: 1,
            agent_names,
            workspace_ids,
        };
        proof {
            assert(strings_view(intent.agent_names@) =~= (if agent is Some { seq![lifecycle_name(match agent { Some(a) => Some(*a), None => None })] } else { Seq::empty() }));
            assert(strings_view(intent.workspace_ids@) =~= (if lifecycle_workspace(match agent { Some(a) => Some(*a), None => None }).len() == 0 { Seq::empty() } else { seq![lifecycle_workspace(match agent { Some(a) => Some(*a), None => None })] }));
        }
        Some(intent)
    }

    /// The intent for `transition` of `agent` at `now`, unless the rule is
    /// disabled or its cooldown for this event and pane has not passed.
    pub fn create_from_transition_at(
        &mut self,
        transition: TransitionKind,
        agent: &AgentInfo,
        rules: &EventRules,
        now: u128,
    ) -> (r: Option<PetIntent>)
        requires
            old(self).wf(),
            old(self).last_id() < u64::MAX,
        ensures
            final(self).wf(),
            transition_intent_made(*old(self), *final(self), transition, *agent, *rules, now, r),
    {
        let (kind, priority, rule): (&'static str, u8, &EventRule) = match transition {
            TransitionKind::AgentStarted => ("agent_started", 50, &rules.agent_started),
            TransitionKind::TurnCompleted => ("turn_completed", 70, &rules.turn_completed),
            TransitionKind::TurnCompletedBackground => ("turn_completed_background", 70, &rules.turn_completed),
            TransitionKind::AttentionRequested => ("attention_requested", 100, &rules.attention_requested),
        };
        if !rule.enabled {
            return None;
        }
        proof {
            reveal_strlit(":");
        }
        let key = concat_str(kind, ":");
        let key = concat_str(key.as_str(), agent.session_id.as_str());
        let key = concat_str(key.as_str(), ":");
        let key = concat_str(key.as_str(), agent.pane_id.as_str());
        let id = match self.take_slot(key, now, rule.cooldown_ms) {
            Some(id) => id,
            None => return None,
        };
        let name: String = match &agent.agent {
            Some(n) => n.clone(),
            None => "Agent".to_owned(),
        };
        let bubble_empty = rule.bubble.as_str().is_empty();
        let bubble = if bubble_empty {
            None
        } else {
            Some(render_bubble(rule.bubble.as_str(), name.as_str(), agent.workspace_id.as_str(), 1))
        };
        let bubble_template = if bubble_empty {
            None
        } else {
            Some(rule.bubble.clone())
        };
        let mut agent_names: Vec<String> = Vec::new();
        agent_names.push(name);
        let mut workspace_ids: Vec<String> = Vec::new();
        workspace_ids.push(agent.workspace_id.clone());
        let intent = PetIntent {
            id,
            kind,
            animation: rule.animation.clone(),
            priority,
            duration_ms: rule.duration_ms,
            bubble,
            bubble_template,
            count: 1,
            agent_names,
            workspace_ids,
        };
        proof {
            assert(strings_view(intent.agent_names@) =~= seq![agent_name(*agent)]);
            assert(strings_view(intent.workspace_ids@) =~= seq![agent.workspace_id@]);
        }
        Some(intent)
    }

    /// The reconnection intent at `now`.
    pub fn reconnected_at(&mut self, rules: &EventRules, now: u128) -> (r: Option<PetIntent>)
        requires
            old(self).wf(),
            old(self).last_id() < u64::MAX,
        ensures
            final(self).wf(),
            reconnected_intent_made(*old(self), *final(self), *rules, now, r),
    {
        proof {
            reveal_strlit("reconnected:global");
            reveal_strlit("reconnected");
            reveal_strlit(":");
            reveal_strlit("global");
            reveal_strlit("");
            assert("reconnected:global"@ =~= "reconnected"@ + ":"@ + "global"@);
        }
        self.create_lifecycle("reconnected", 40, None, &rules.reconnected, now)
    }

    /// The intent for a newly detected agent in `pane_id` at `now`.
    pub fn agent_detected_at(&mut self, pane_id: &str, rules: &EventRules, now: u128) -> (r: Option<PetIntent>)
        requires
            old(self).wf(),
            old(self).last_id() < u64::MAX,
        ensures
            final(self).wf(),
            detected_intent_made(*old(self), *final(self), pane_id@, *rules, now, r),
    {
        let agent = AgentInfo {
            session_id: "topology".to_owned(),
            workspace_id: "".to_owned(),
            workspace_label: None,
            pane_id: pane_id.to_owned(),
            agent: None,
            title: None,
            state: AgentState::Unknown,
        };
        proof {
            reveal_strlit("");
        }
        self.create_lifecycle("agent_detected", 60, Some(&agent), &rules.agent_detected, now)
    }

    /// The intent for an agent that exited, at `now`.
    pub fn agent_exited_at(&mut self, agent: &AgentInfo, rules: &EventRules, now: u128) -> (r: Option<PetIntent>)
        requires
            old(self).wf(),
            old(self).last_id() < u64::MAX,
        ensures
            final(self).wf(),
            lifecycle_intent_made(*old(self), *final(self), "agent_exited"@, 40, Some(*agent), rules.agent_exited, now, r),
    {
        self.create_lifecycle("agent_exited", 40, Some(agent), &rules.agent_exited, now)
    }

    /// The intent for `transition` of `agent` now. Whether the cooldown has
    /// passed depends on the clock; every intent made is the one that
    /// `create_from_transition_at` describes.
    pub fn create_from_transition(&mut self, transition: TransitionKind, agent: &AgentInfo, rules: &EventRules) -> (r: Option<PetIntent>)
        requires
            old(self).wf(),
            old(self).last_id() < u64::MAX,
        ensures
            final(self).wf(),
            exists|now: u128| transition_intent_made(*old(self), *final(self), transition, *agent, *rules, now, r),
    {
        let now = nanos_since(&self.origin);
        self.create_from_transition_at(transition, agent, rules, now)
    }

    /// The reconnection intent now.
    pub fn reconnected(&mut self, rules: &EventRules) -> (r: Option<PetIntent>)
        requires
            old(self).wf(),
            old(self).last_id() < u64::MAX,
        ensures
            final(self).wf(),
            exists|now: u128| reconnected_intent_made(*old(self), *final(self), *rules, now, r),
    {
        let now = nanos_since(&self.origin);
        self.reconnected_at(rules, now)
    }

    /// The intent for a newly detected agent in `pane_id` now.
    pub fn agent_detected(&mut self, pane_id: &str, rules: &EventRules) -> (r: Option<PetIntent>)
        requires
            old(self).wf(),
            old(self).last_id() < u64::MAX,
        ensures
            final(self).wf(),
            exists|now: u128| detected_intent_made(*old(self), *final(self), pane_id@, *rules, now, r),
    {
        let now = nanos_since(&self.origin);
        self.agent_detected_at(pane_id, rules, now)
    }

    /// The intent for an agent that exited, now.
    pub fn agent_exited(&mut self, agent: &AgentInfo, rules: &EventRules) -> (r: Option<PetIntent>)
        requires
            old(self).wf(),
            old(self).last_id() < u64::MAX,
        ensures
            final(self).wf(),
            exists|now: u128| lifecycle_intent_made(*old(self), *final(self), "agent_exited"@, 40, Some(*agent), rules.agent_exited, now, r),
    {
        let now = nanos_since(&self.origin);
        self.agent_exited_at(agent, rules, now)
    }
}

/// Within its cooldown, a second event under the same key is suppressed.
pub proof fn law_cooldown_suppresses_repeat(m: Map<Seq<char>, u128>, key: Seq<char>, emitted: u128, later: u128, cooldown_ms: u64)
    requires
        emitted <= later,
        later - emitted < cooldown_ms * 1_000_000,
    ensures
        cooling_down(m.insert(key, emitted), key, later, cooldown_ms),
{
}

/// Once the cooldown has passed, the same key may emit again.
pub proof fn law_cooldown_expires(m: Map<Seq<char>, u128>, key: Seq<char>, emitted: u128, later: u128, cooldown_ms: u64)
    requires
        emitted <= later,
        later - emitted >= cooldown_ms * 1_000_000,
    ensures
        !cooling_down(m.insert(key, emitted), key, later, cooldown_ms),
{
}

/// Emitting under one key never holds back another key.
pub proof fn law_cooldown_is_per_key(m: Map<Seq<char>, u128>, emitted_key: Seq<char>, other: Seq<char>, emitted: u128, later: u128, cooldown_ms: u64)
    requires
        emitted_key != other,
    ensures
        cooling_down(m.insert(emitted_key, emitted), other, later, cooldown_ms) == cooling_down(m, other, later, cooldown_ms),
{
}

/// Two agents of one session in different panes have different cooldown
/// keys for the same transition, so one never suppresses the other.
pub proof fn law_panes_cool_down_separately(kind: Seq<char>, a: AgentInfo, b: AgentInfo)
    requires
        a.session_id@ == b.session_id@,
        a.pane_id@ != b.pane_id@,
    ensures
        transition_key(kind, a) != transition_key(kind, b),
{
    let prefix = kind + ":"@ + a.session_id@ + ":"@;
    assert(transition_key(kind, a) =~= prefix + a.pane_id@);
    assert(transition_key(kind, b) =~= prefix + b.pane_id@);
    if transition_key(kind, a) == transition_key(kind, b) {
        assert((prefix + a.pane_id@).skip(prefix.len() as int) =~= a.pane_id@);
        assert((prefix + b.pane_id@).skip(prefix.len() as int) =~= b.pane_id@);
    }
}

/// A lifecycle event of the same kind and pane that follows a played one
/// within the rule's cooldown makes no intent; the played one filled the
/// rule's template with the agent's name and workspace.
pub proof fn law_lifecycle_repeat_is_suppressed(
    f0: IntentFactory,
    f1: IntentFactory,
    f2: IntentFactory,
    kind: Seq<char>,
    priority: u8,
    agent: Option<AgentInfo>,
    rule: EventRule,
    first: u128,
    second: u128,
    r1: Option<PetIntent>,
    r2: Option<PetIntent>,
)
    requires
        lifecycle_intent_made(f0, f1, kind, priority, agent, rule, first, r1),
        lifecycle_intent_made(f1, f2, kind, priority, agent, rule, second, r2),
        r1 is Some,
        first <= second,
        second - first < rule.cooldown_ms * 1_000_000,
    ensures
        r2 is None,
        opt_view(r1->0.bubble) == if rule.bubble@.len() == 0 {
            None
        } else {
            Some(bubble_text(rule.bubble@, lifecycle_name(agent), lifecycle_workspace(agent), 1))
        },
{
    let key = lifecycle_key(kind, agent);
    assert(f1.cooldowns() == f0.cooldowns().insert(key, first));
    assert(cooling_down(f1.cooldowns(), key, second, rule.cooldown_ms));
}

impl Default for IntentFactory {
    fn default() -> (r: IntentFactory)
        ensures
            r.wf(),
            r.last_id() == 0,
            r.cooldowns() == Map::<Seq<char>, u128>::empty(),
    {
        IntentFactory::new()
    }
}

} // verus!
