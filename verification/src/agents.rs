//! The cache of agents reported by Herdr and the mood derived from it.

use vstd::prelude::*;
use crate::config::str_equal;
use crate::text::{chars_of, clone_option, lemma_lex_lt_irreflexive, lemma_lex_lt_transitive, lex_lt, str_lt};

verus! {

/// The status that Herdr reports for one agent.
#[derive(Debug, Clone, Copy, PartialEq, Eq, Hash, Structural)]
pub enum AgentState {
    Idle,
    Working,
    Blocked,
    Done,
    Unknown,
}

/// A state change of one agent that the pet reacts to.
#[derive(Debug, Clone, Copy, PartialEq, Eq, Structural)]
pub enum TransitionKind {
    AgentStarted,
    TurnCompleted,
    TurnCompletedBackground,
    AttentionRequested,
}

/// What a change from `from` to `to` means for the pet.
pub open spec fn transition_between(from: AgentState, to: AgentState) -> Option<TransitionKind> {
    if from == to {
        None
    } else {
        match (from, to) {
            (AgentState::Working, AgentState::Idle) => Some(TransitionKind::TurnCompleted),
            (AgentState::Working, AgentState::Done) => Some(TransitionKind::TurnCompletedBackground),
            (_, AgentState::Working) => Some(TransitionKind::AgentStarted),
            (_, AgentState::Blocked) => Some(TransitionKind::AttentionRequested),
            _ => None,
        }
    }
}

pub fn classify_transition(from: AgentState, to: AgentState) -> (r: Option<TransitionKind>)
    ensures
        r == transition_between(from, to),
{
    if from == to {
        return None;
    }
    match (from, to) {
        (AgentState::Working, AgentState::Idle) => Some(TransitionKind::TurnCompleted),
        (AgentState::Working, AgentState::Done) => Some(TransitionKind::TurnCompletedBackground),
        (_, AgentState::Working) => Some(TransitionKind::AgentStarted),
        (_, AgentState::Blocked) => Some(TransitionKind::AttentionRequested),
        _ => None,
    }
}


/// One agent as Herdr reports it.
#[derive(Debug, Clone, PartialEq, Eq)]
pub struct AgentInfo {
    pub session_id: String,
    pub workspace_id: String,
    pub workspace_label: Option<String>,
    pub pane_id: String,
    pub agent: Option<String>,
    pub title: Option<String>,
    pub state: AgentState,
}

/// The mood of the pet, derived from all agents.
#[derive(Debug, Clone, Copy, PartialEq, Eq, Structural)]
pub enum AggregateState {
    Sleeping,
    Idle,
    Working,
    NeedsAttention,
    Offline,
}

/// What identifies an agent: its session and its pane.
pub type AgentKey = (Seq<char>, Seq<char>);

/// The key under which the cache stores an agent: the pair of its session
/// and pane, so that distinct pairs are distinct agents.
pub open spec fn cache_key(session_id: Seq<char>, pane_id: Seq<char>) -> AgentKey {
    (session_id, pane_id)
}

impl AgentInfo {
    pub open spec fn key(&self) -> AgentKey {
        cache_key(self.session_id@, self.pane_id@)
    }

    /// A field-by-field copy.
    pub fn duplicate(&self) -> (r: AgentInfo)
        ensures
            r == *self,
    {
        AgentInfo {
            session_id: self.session_id.clone(),
            workspace_id: self.workspace_id.clone(),
            workspace_label: clone_option(&self.workspace_label),
            pane_id: self.pane_id.clone(),
            agent: clone_option(&self.agent),
            title: clone_option(&self.title),
            state: self.state,
        }
    }
}

/// The agents of a cache, at most one per session and pane.
pub struct AgentCache {
    agents: Vec<AgentInfo>,
}

pub open spec fn has_key(s: Seq<AgentInfo>, k: AgentKey) -> bool {
    exists|i: int| 0 <= i < s.len() && #[trigger] s[i].key() == k
}

pub open spec fn keys_distinct(s: Seq<AgentInfo>) -> bool {
    forall|i: int, j: int|
        0 <= i < s.len() && 0 <= j < s.len() && i != j ==> #[trigger] s[i].key() != #[trigger] s[j].key()
}

spec fn entries_view(s: Seq<AgentInfo>) -> Map<AgentKey, AgentInfo> {
    Map::new(
        |k: AgentKey| has_key(s, k),
        |k: AgentKey| s[choose|i: int| 0 <= i < s.len() && #[trigger] s[i].key() == k],
    )
}

proof fn lemma_view_at(s: Seq<AgentInfo>, i: int)
    requires
        keys_distinct(s),
        0 <= i < s.len(),
    ensures
        entries_view(s).contains_key(s[i].key()),
        entries_view(s)[s[i].key()] == s[i],
{
    let k = s[i].key();
    assert(has_key(s, k));
    let j = choose|j: int| 0 <= j < s.len() && #[trigger] s[j].key() == k;
    assert(j == i);
}

proof fn lemma_view_empty(s: Seq<AgentInfo>)
    requires
        s.len() == 0,
    ensures
        entries_view(s) =~= Map::empty(),
{
}

proof fn lemma_view_push(s: Seq<AgentInfo>, a: AgentInfo)
    requires
        keys_distinct(s),
        !has_key(s, a.key()),
    ensures
        keys_distinct(s.push(a)),
        entries_view(s.push(a)) =~= entries_view(s).insert(a.key(), a),
{
    let t = s.push(a);
    assert forall|i: int, j: int|
        0 <= i < t.len() && 0 <= j < t.len() && i != j implies #[trigger] t[i].key() != #[trigger] t[j].key() by {
        if i < s.len() && j < s.len() {
            assert(s[i].key() != s[j].key());
        } else if i < s.len() {
            assert(t[i].key() == s[i].key());
        } else {
            assert(t[j].key() == s[j].key());
        }
    }
    assert forall|k: AgentKey| #[trigger] entries_view(t).contains_key(k) == entries_view(s).insert(a.key(), a).contains_key(k) by {
        if has_key(s, k) {
            let i = choose|i: int| 0 <= i < s.len() && #[trigger] s[i].key() == k;
            assert(t[i].key() == k);
        }
        if has_key(t, k) {
            let i = choose|i: int| 0 <= i < t.len() && #[trigger] t[i].key() == k;
            if i < s.len() {
                assert(s[i].key() == k);
            }
        }
        if k == a.key() {
            assert(t[s.len() as int].key() == k);
        }
    }
    assert forall|k: AgentKey| #[trigger] entries_view(t).contains_key(k) implies entries_view(t)[k] == entries_view(s).insert(a.key(), a)[k] by {
        let i = choose|i: int| 0 <= i < t.len() && #[trigger] t[i].key() == k;
        lemma_view_at(t, i);
        if i < s.len() {
            assert(s[i] == t[i]);
            lemma_view_at(s, i);
        }
    }
}

proof fn lemma_view_set(s: Seq<AgentInfo>, i: int, a: AgentInfo)
    requires
        keys_distinct(s),
        0 <= i < s.len(),
        a.key() == s[i].key(),
    ensures
        keys_distinct(s.update(i, a)),
        entries_view(s.update(i, a)) =~= entries_view(s).insert(a.key(), a),
{
    let t = s.update(i, a);
    assert forall|x: int, y: int|
        0 <= x < t.len() && 0 <= y < t.len() && x != y implies #[trigger] t[x].key() != #[trigger] t[y].key() by {
        assert(t[x].key() == s[x].key());
        assert(t[y].key() == s[y].key());
    }
    assert forall|k: AgentKey| #[trigger] entries_view(t).contains_key(k) == entries_view(s).insert(a.key(), a).contains_key(k) by {
        if has_key(s, k) {
            let j = choose|j: int| 0 <= j < s.len() && #[trigger] s[j].key() == k;
            assert(t[j].key() == k);
        }
        if has_key(t, k) {
            let j = choose|j: int| 0 <= j < t.len() && #[trigger] t[j].key() == k;
            assert(s[j].key() == k);
        }
        if k == a.key() {
            assert(t[i].key() == k);
        }
    }
    assert forall|k: AgentKey| #[trigger] entries_view(t).contains_key(k) implies entries_view(t)[k] == entries_view(s).insert(a.key(), a)[k] by {
        let j = choose|j: int| 0 <= j < t.len() && #[trigger] t[j].key() == k;
        lemma_view_at(t, j);
        if j != i {
            assert(s[j] == t[j]);
            lemma_view_at(s, j);
        }
    }
}

proof fn lemma_view_remove(s: Seq<AgentInfo>, i: int)
    requires
        keys_distinct(s),
        0 <= i < s.len(),
    ensures
        keys_distinct(s.remove(i)),
        entries_view(s.remove(i)) =~= entries_view(s).remove(s[i].key()),
{
    let t = s.remove(i);
    let gone = s[i].key();
    assert forall|x: int| 0 <= x < t.len() implies #[trigger] t[x] == s[if x < i { x } else { x + 1 }] by {}
    assert forall|x: int, y: int|
        0 <= x < t.len() && 0 <= y < t.len() && x != y implies #[trigger] t[x].key() != #[trigger] t[y].key() by {
        let sx = if x < i { x } else { x + 1 };
        let sy = if y < i { y } else { y + 1 };
        assert(t[x] == s[sx]);
        assert(t[y] == s[sy]);
        assert(s[sx].key() != s[sy].key());
    }
    assert forall|k: AgentKey| #[trigger] entries_view(t).contains_key(k) == entries_view(s).remove(gone).contains_key(k) by {
        if has_key(s, k) && k != gone {
            let j = choose|j: int| 0 <= j < s.len() && #[trigger] s[j].key() == k;
            let tj = if j < i { j } else { j - 1 };
            assert(j != i);
            assert(t[tj] == s[j]);
        }
        if has_key(t, k) {
            let j = choose|j: int| 0 <= j < t.len() && #[trigger] t[j].key() == k;
            let sj = if j < i { j } else { j + 1 };
            assert(t[j] == s[sj]);
            assert(s[sj].key() != s[i].key());
        }
    }
    assert forall|k: AgentKey| #[trigger] entries_view(t).contains_key(k) implies entries_view(t)[k] == entries_view(s).remove(gone)[k] by {
        let j = choose|j: int| 0 <= j < t.len() && #[trigger] t[j].key() == k;
        let sj = if j < i { j } else { j + 1 };
        assert(t[j] == s[sj]);
        lemma_view_at(t, j);
        lemma_view_at(s, sj);
    }
}

impl View for AgentCache {
    type V = Map<AgentKey, AgentInfo>;

    closed spec fn view(&self) -> Map<AgentKey, AgentInfo> {
        entries_view(self.agents@)
    }
}

/// The map that results from inserting the agents one after the other: a
/// later agent with the same key replaces an earlier one.
pub open spec fn map_of_agents(s: Seq<AgentInfo>) -> Map<AgentKey, AgentInfo>
    decreases s.len(),
{
    if s.len() == 0 {
        Map::empty()
    } else {
        map_of_agents(s.drop_last()).insert(s.last().key(), s.last())
    }
}

/// The entry that an update stores: an update without a workspace label
/// keeps the label of the entry that it replaces.
pub open spec fn merged_entry(m: Map<AgentKey, AgentInfo>, next: AgentInfo) -> AgentInfo {
    if next.workspace_label is None && m.contains_key(next.key()) {
        AgentInfo { workspace_label: m[next.key()].workspace_label, ..next }
    } else {
        next
    }
}

/// The cache after an update.
pub open spec fn map_after_update(m: Map<AgentKey, AgentInfo>, next: AgentInfo) -> Map<AgentKey, AgentInfo> {
    m.insert(next.key(), merged_entry(m, next))
}

/// The transition that an update reports: none for an agent not seen before.
pub open spec fn update_transition(m: Map<AgentKey, AgentInfo>, next: AgentInfo) -> Option<TransitionKind> {
    if m.contains_key(next.key()) {
        transition_between(m[next.key()].state, next.state)
    } else {
        None
    }
}

/// Whether some agent of `m` is in state `state`.
pub open spec fn some_agent_in(m: Map<AgentKey, AgentInfo>, state: AgentState) -> bool {
    exists|k: AgentKey| m.contains_key(k) && #[trigger] m[k].state == state
}

pub open spec fn no_agents(m: Map<AgentKey, AgentInfo>) -> bool {
    forall|k: AgentKey| !#[trigger] m.contains_key(k)
}

/// The mood: offline when disconnected, asleep with no agents, then
/// attention before work before idleness.
pub open spec fn aggregate_of(m: Map<AgentKey, AgentInfo>, connected: bool) -> AggregateState {
    if !connected {
        AggregateState::Offline
    } else if no_agents(m) {
        AggregateState::Sleeping
    } else if some_agent_in(m, AgentState::Blocked) {
        AggregateState::NeedsAttention
    } else if some_agent_in(m, AgentState::Working) {
        AggregateState::Working
    } else {
        AggregateState::Idle
    }
}

/// The quiet mood: as the mood, with work shown as idleness.
pub open spec fn quiet_of(state: AggregateState) -> AggregateState {
    match state {
        AggregateState::Working => AggregateState::Idle,
        other => other,
    }
}

/// `r` lists the entries of `m`, each once.
pub open spec fn lists_entries(m: Map<AgentKey, AgentInfo>, r: Seq<AgentInfo>) -> bool {
    &&& forall|i: int| 0 <= i < r.len() ==> m.contains_key(#[trigger] r[i].key()) && m[r[i].key()] == r[i]
    &&& keys_distinct(r)
    &&& forall|k: AgentKey| m.contains_key(k) ==> #[trigger] has_key(r, k)
}

spec fn covers(perm: Seq<int>, t: int) -> bool {
    exists|j: int| 0 <= j < perm.len() && #[trigger] perm[j] == t
}

/// `r` is ordered by pane id.
pub open spec fn sorted_by_pane(r: Seq<AgentInfo>) -> bool {
    forall|i: int, j: int| 0 <= i < j < r.len() ==> !lex_lt(#[trigger] r[j].pane_id@, #[trigger] r[i].pane_id@)
}

impl AgentCache {
    pub closed spec fn wf(&self) -> bool {
        keys_distinct(self.agents@)
    }

    /// An empty cache.
    pub fn new() -> (r: AgentCache)
        ensures
            r.wf(),
            r@ == Map::<AgentKey, AgentInfo>::empty(),
    {
        let r = AgentCache { agents: Vec::new() };
        proof {
            lemma_view_empty(r.agents@);
        }
        r
    }

    fn position(&self, session_id: &str, pane_id: &str) -> (r: Option<usize>)
        requires
            self.wf(),
        ensures
            match r {
                Some(i) => i < self.agents@.len() && self.agents@[i as int].key() == cache_key(session_id@, pane_id@),
                None => !has_key(self.agents@, cache_key(session_id@, pane_id@)),
            },
    {
        let mut i: usize = 0;
        while i < self.agents.len()
            invariant
                self.wf(),
                i <= self.agents@.len(),
                forall|j: int| 0 <= j < i ==> #[trigger] self.agents@[j].key() != cache_key(session_id@, pane_id@),
            decreases self.agents@.len() - i,
        {
            if str_equal(self.agents[i].session_id.as_str(), session_id)
                && str_equal(self.agents[i].pane_id.as_str(), pane_id) {
                return Some(i);
            }
            i += 1;
        }
        None
    }

    fn upsert(&mut self, agent: AgentInfo)
        requires
            old(self).wf(),
        ensures
            final(self).wf(),
            final(self)@ == old(self)@.insert(agent.key(), agent),
    {
        match self.position(agent.session_id.as_str(), agent.pane_id.as_str()) {
            Some(i) => {
                proof {
                    lemma_view_set(self.agents@, i as int, agent);
                }
                self.agents.set(i, agent);
            },
            None => {
                proof {
                    lemma_view_push(self.agents@, agent);
                }
                self.agents.push(agent);
            },
        }
    }

    /// Replaces the whole cache by `agents`, a later agent with the same key
    /// winning over an earlier one.
    pub fn replace(&mut self, agents: Vec<AgentInfo>)
        requires
            old(self).wf(),
        ensures
            final(self).wf(),
            final(self)@ == map_of_agents(agents@),
    {
        let mut fresh = AgentCache::new();
        for i in 0..agents.len()
            invariant
                fresh.wf(),
                fresh@ == map_of_agents(agents@.take(i as int)),
        {
            let agent = agents[i].duplicate();
            fresh.upsert(agent);
            assert(agents@.take(i + 1).drop_last() == agents@.take(i as int));
        }
        assert(agents@.take(agents.len() as int) == agents@);
        *self = fresh;
    }

    /// Stores `next` and reports the transition from the state that the
    /// agent had before, if it was known.
    pub fn update(&mut self, next: AgentInfo) -> (r: Option<TransitionKind>)
        requires
            old(self).wf(),
        ensures
            final(self).wf(),
            final(self)@ == map_after_update(old(self)@, next),
            r == update_transition(old(self)@, next),
    {
        let ghost given = next;
        let mut next = next;
        let mut transition: Option<TransitionKind> = None;
        match self.position(next.session_id.as_str(), next.pane_id.as_str()) {
            Some(i) => {
                proof {
                    lemma_view_at(self.agents@, i as int);
                }
                if next.workspace_label.is_none() {
                    next.workspace_label = clone_option(&self.agents[i].workspace_label);
                }
                transition = classify_transition(self.agents[i].state, next.state);
            },
            None => {},
        }
        assert(next == merged_entry(self@, given));
        self.upsert(next);
        transition
    }

    /// Removes the agent of `pane_id` in `session_id` and returns it.
    pub fn remove(&mut self, session_id: &str, pane_id: &str) -> (r: Option<AgentInfo>)
        requires
            old(self).wf(),
        ensures
            final(self).wf(),
            final(self)@ == old(self)@.remove(cache_key(session_id@, pane_id@)),
            match r {
                Some(agent) => old(self)@.contains_key(cache_key(session_id@, pane_id@))
                    && agent == old(self)@[cache_key(session_id@, pane_id@)],
                None => !old(self)@.contains_key(cache_key(session_id@, pane_id@)),
            },
    {
        match self.position(session_id, pane_id) {
            Some(i) => {
                proof {
                    lemma_view_at(self.agents@, i as int);
                    lemma_view_remove(self.agents@, i as int);
                }
                let agent = self.agents.remove(i);
                Some(agent)
            },
            None => {
                assert(self@ =~= self@.remove(cache_key(session_id@, pane_id@)));
                None
            },
        }
    }

    fn any_in_state(&self, state: AgentState) -> (r: bool)
        requires
            self.wf(),
        ensures
            r == some_agent_in(self@, state),
    {
        let mut i: usize = 0;
        while i < self.agents.len()
            invariant
                self.wf(),
                i <= self.agents@.len(),
                forall|j: int| 0 <= j < i ==> #[trigger] self.agents@[j].state != state,
            decreases self.agents@.len() - i,
        {
            if self.agents[i].state == state {
                proof {
                    lemma_view_at(self.agents@, i as int);
                    assert(self@.contains_key(self.agents@[i as int].key()));
                }
                return true;
            }
            i += 1;
        }
        proof {
            assert forall|k: AgentKey| self@.contains_key(k) implies #[trigger] self@[k].state != state by {
                let j = choose|j: int| 0 <= j < self.agents@.len() && #[trigger] self.agents@[j].key() == k;
                lemma_view_at(self.agents@, j);
            }
        }
        false
    }

    /// The mood of the pet.
    pub fn aggregate(&self, connected: bool) -> (r: AggregateState)
        requires
            self.wf(),
        ensures
            r == aggregate_of(self@, connected),
    {
        if !connected {
            return AggregateState::Offline;
        }
        if self.agents.len() == 0 {
            return AggregateState::Sleeping;
        }
        proof {
            lemma_view_at(self.agents@, 0);
            assert(self@.contains_key(self.agents@[0].key()));
        }
        if self.any_in_state(AgentState::Blocked) {
            return AggregateState::NeedsAttention;
        }
        if self.any_in_state(AgentState::Working) {
            return AggregateState::Working;
        }
        AggregateState::Idle
    }

    /// The mood in quiet mode, where work is not shown.
    pub fn aggregate_quiet(&self, connected: bool) -> (r: AggregateState)
        requires
            self.wf(),
        ensures
            r == quiet_of(aggregate_of(self@, connected)),
    {
        match self.aggregate(connected) {
            AggregateState::Working => AggregateState::Idle,
            state => state,
        }
    }

    /// The agents, ordered by pane id.
    pub fn list(&self) -> (r: Vec<AgentInfo>)
        requires
            self.wf(),
        ensures
            lists_entries(self@, r@),
            sorted_by_pane(r@),
    {
        let mut r: Vec<AgentInfo> = Vec::new();
        let ghost mut perm: Seq<int> = Seq::empty();
        let n = self.agents.len();
        for i in 0..n
            invariant
                n == self.agents@.len(),
                self.wf(),
                r@.len() == i,
                perm.len() == i,
                forall|j: int| 0 <= j < i ==> 0 <= #[trigger] perm[j] < i && r@[j] == self.agents@[perm[j]],
                forall|x: int, y: int| 0 <= x < i && 0 <= y < i && x != y ==> #[trigger] perm[x] != #[trigger] perm[y],
                forall|t: int| 0 <= t < i ==> #[trigger] covers(perm, t),
                sorted_by_pane(r@),
        {
            let agent = self.agents[i].duplicate();
            let pane = chars_of(&agent.pane_id);
            let mut p: usize = 0;
            let mut found = false;
            while p < r.len() && !found
                invariant
                    p <= r@.len(),
                    pane@ == agent.pane_id@,
                    forall|j: int| 0 <= j < p ==> !lex_lt(pane@, #[trigger] r@[j].pane_id@),
                    found ==> p < r@.len() && lex_lt(pane@, r@[p as int].pane_id@),
                decreases r@.len() - p + if found { 0int } else { 1int },
            {
                if str_lt(&agent.pane_id, &r[p].pane_id) {
                    found = true;
                } else {
                    p += 1;
                }
            }
            let ghost before = r@;
            let ghost old_perm = perm;
            r.insert(p, agent);
            proof {
                perm = perm.insert(p as int, i as int);
                assert forall|j: int| 0 <= j < i + 1 implies 0 <= #[trigger] perm[j] < i + 1 && r@[j] == self.agents@[perm[j]] by {
                    if j < p {
                        assert(perm[j] == old_perm[j]);
                    } else if j > p {
                        assert(perm[j] == old_perm[j - 1]);
                    }
                }
                assert forall|x: int, y: int| 0 <= x < i + 1 && 0 <= y < i + 1 && x != y implies #[trigger] perm[x] != #[trigger] perm[y] by {
                    if x != p && y != p {
                        let ox = if x < p { x } else { x - 1 };
                        let oy = if y < p { y } else { y - 1 };
                        assert(perm[x] == old_perm[ox]);
                        assert(perm[y] == old_perm[oy]);
                    } else if x == p {
                        let oy = if y < p { y } else { y - 1 };
                        assert(perm[y] == old_perm[oy]);
                    } else {
                        let ox = if x < p { x } else { x - 1 };
                        assert(perm[x] == old_perm[ox]);
                    }
                }
                assert forall|t: int| 0 <= t < i + 1 implies #[trigger] covers(perm, t) by {
                    if t == i {
                        assert(perm[p as int] == t);
                    } else {
                        assert(covers(old_perm, t));
                        let j = choose|j: int| 0 <= j < old_perm.len() && #[trigger] old_perm[j] == t;
                        if j < p {
                            assert(perm[j] == t);
                        } else {
                            assert(perm[j + 1] == t);
                        }
                    }
                }
                assert forall|x: int, y: int| 0 <= x < y < r@.len() implies !lex_lt(#[trigger] r@[y].pane_id@, #[trigger] r@[x].pane_id@) by {
                    if y < p {
                        assert(r@[x] == before[x] && r@[y] == before[y]);
                    } else if y == p {
                        assert(r@[x] == before[x]);
                        assert(r@[y].pane_id@ == pane@);
                    } else if x == p {
                        assert(r@[y] == before[y - 1]);
                        assert(found);
                        if lex_lt(before[y - 1].pane_id@, pane@) {
                            lemma_lex_lt_transitive(before[y - 1].pane_id@, pane@, before[p as int].pane_id@);
                            lemma_lex_lt_irreflexive(before[p as int].pane_id@);
                        }
                    } else if x < p {
                        assert(r@[x] == before[x] && r@[y] == before[y - 1]);
                    } else {
                        assert(r@[x] == before[x - 1] && r@[y] == before[y - 1]);
                    }
                }
            }
        }
        proof {
            assert forall|j: int| 0 <= j < r@.len() implies self@.contains_key(#[trigger] r@[j].key()) && self@[r@[j].key()] == r@[j] by {
                lemma_view_at(self.agents@, perm[j]);
            }
            assert forall|x: int, y: int| 0 <= x < r@.len() && 0 <= y < r@.len() && x != y implies #[trigger] r@[x].key() != #[trigger] r@[y].key() by {
                assert(perm[x] != perm[y]);
            }
            assert forall|k: AgentKey| self@.contains_key(k) implies #[trigger] has_key(r@, k) by {
                let t = choose|t: int| 0 <= t < self.agents@.len() && #[trigger] self.agents@[t].key() == k;
                assert(covers(perm, t));
                let j = choose|j: int| 0 <= j < perm.len() && #[trigger] perm[j] == t;
                assert(r@[j].key() == k);
            }
        }
        r
    }
}

impl Default for AgentCache {
    fn default() -> (r: AgentCache)
        ensures
            r.wf(),
            r@ == Map::<AgentKey, AgentInfo>::empty(),
    {
        AgentCache::new()
    }
}


/// An update that keeps an agent's state reports no transition, whatever
/// else (title, agent name) it changes.
pub proof fn law_same_state_update_reports_nothing(m: Map<AgentKey, AgentInfo>, next: AgentInfo)
    requires
        m.contains_key(next.key()),
        m[next.key()].state == next.state,
    ensures
        update_transition(m, next) is None,
{
}

/// An agent seen for the first time reports no transition.
pub proof fn law_first_sighting_reports_nothing(m: Map<AgentKey, AgentInfo>, next: AgentInfo)
    requires
        !m.contains_key(next.key()),
    ensures
        update_transition(m, next) is None,
{
}

/// A status update without a workspace label keeps the label the cache
/// held, and takes the new state.
pub proof fn law_update_keeps_workspace_label(m: Map<AgentKey, AgentInfo>, next: AgentInfo)
    requires
        m.contains_key(next.key()),
        next.workspace_label is None,
    ensures
        map_after_update(m, next).contains_key(next.key()),
        map_after_update(m, next)[next.key()].workspace_label == m[next.key()].workspace_label,
        map_after_update(m, next)[next.key()].state == next.state,
{
}

/// An update touches only the updated agent's entry.
pub proof fn law_update_leaves_other_agents(m: Map<AgentKey, AgentInfo>, next: AgentInfo, k: AgentKey)
    requires
        k != next.key(),
    ensures
        map_after_update(m, next).contains_key(k) == m.contains_key(k),
        m.contains_key(k) ==> map_after_update(m, next)[k] == m[k],
{
}

/// Removing an agent right after an update gives back the stored entry and
/// leaves the cache as it was before, without that agent.
pub proof fn law_remove_after_update(m: Map<AgentKey, AgentInfo>, next: AgentInfo)
    ensures
        map_after_update(m, next).contains_key(next.key()),
        map_after_update(m, next)[next.key()] == merged_entry(m, next),
        map_after_update(m, next).remove(next.key()) == m.remove(next.key()),
{
    assert(map_after_update(m, next).remove(next.key()) =~= m.remove(next.key()));
}

/// Disconnection shows as offline, whatever the agents do.
pub proof fn law_disconnected_is_offline(m: Map<AgentKey, AgentInfo>)
    ensures
        aggregate_of(m, false) == AggregateState::Offline,
        quiet_of(aggregate_of(m, false)) == AggregateState::Offline,
{
}

/// While connected, a blocked agent takes priority over working ones, and a
/// working one over idle ones.
pub proof fn law_aggregate_priority(m: Map<AgentKey, AgentInfo>)
    ensures
        some_agent_in(m, AgentState::Blocked) ==> aggregate_of(m, true) == AggregateState::NeedsAttention,
        some_agent_in(m, AgentState::Working) && !some_agent_in(m, AgentState::Blocked)
            ==> aggregate_of(m, true) == AggregateState::Working,
{
    if some_agent_in(m, AgentState::Blocked) {
        let k = choose|k: AgentKey| m.contains_key(k) && #[trigger] m[k].state == AgentState::Blocked;
        assert(!no_agents(m));
    }
    if some_agent_in(m, AgentState::Working) {
        let k = choose|k: AgentKey| m.contains_key(k) && #[trigger] m[k].state == AgentState::Working;
        assert(!no_agents(m));
    }
}

/// While connected with at least one agent, the pet looks busy exactly when
/// some agent is working and none is blocked; with no agent blocked or
/// working (all idle, done or unknown) it is idle.
pub proof fn law_busy_only_with_a_working_agent(m: Map<AgentKey, AgentInfo>)
    requires
        exists|k: AgentKey| m.contains_key(k),
    ensures
        aggregate_of(m, true) == AggregateState::Working <==> (
            (exists|k: AgentKey| m.contains_key(k) && m[k].state == AgentState::Working)
            && (forall|k: AgentKey| m.contains_key(k) ==> m[k].state != AgentState::Blocked)),
        (forall|k: AgentKey| m.contains_key(k) ==> m[k].state != AgentState::Blocked && m[k].state != AgentState::Working)
            ==> aggregate_of(m, true) == AggregateState::Idle,
{
    let k0 = choose|k: AgentKey| m.contains_key(k);
    assert(!no_agents(m)) by {
        assert(m.contains_key(k0));
    }
    if some_agent_in(m, AgentState::Blocked) {
        let k = choose|k: AgentKey| m.contains_key(k) && #[trigger] m[k].state == AgentState::Blocked;
        assert(m.contains_key(k) && m[k].state == AgentState::Blocked);
    }
    if some_agent_in(m, AgentState::Working) {
        let k = choose|k: AgentKey| m.contains_key(k) && #[trigger] m[k].state == AgentState::Working;
        assert(m.contains_key(k) && m[k].state == AgentState::Working);
    }
}

/// Quiet mode never shows work, keeps every protective state (attention,
/// offline) and otherwise agrees with the normal mood.
pub proof fn law_quiet_hides_only_work(m: Map<AgentKey, AgentInfo>, connected: bool)
    ensures
        quiet_of(aggregate_of(m, connected)) != AggregateState::Working,
        aggregate_of(m, connected) != AggregateState::Working
            ==> quiet_of(aggregate_of(m, connected)) == aggregate_of(m, connected),
        aggregate_of(m, connected) == AggregateState::Working
            ==> quiet_of(aggregate_of(m, connected)) == AggregateState::Idle,
{
}

} // verus!
