//! The records of the Herdr socket protocol that the library reads.

use vstd::prelude::*;
use crate::agents::{AgentInfo, AgentState};
use crate::text::concat_str;

verus! {

/// An error reported by Herdr.
#[derive(Debug, Clone)]
pub struct ApiError {
    pub message: String,
}

/// The answer to a ping.
#[derive(Debug, Clone)]
pub struct PingResult {
    pub kind: String,
    pub version: String,
    pub protocol: u32,
}

/// A ping response: a result or an error.
#[derive(Debug, Clone)]
pub struct PingResponse {
    pub result: Option<PingResult>,
    pub error: Option<ApiError>,
}

pub open spec fn error_message(e: Option<ApiError>) -> Option<String> {
    match e {
        Some(e) => Some(e.message),
        None => None,
    }
}

impl PingResponse {
    /// The result, unless Herdr reported an error (whose message is kept)
    /// or sent neither.
    pub fn into_result(self) -> (r: Result<PingResult, String>)
        ensures
            match error_message(self.error) {
                Some(message) => r == Err::<PingResult, String>(message),
                None => match self.result {
                    Some(p) => r == Ok::<PingResult, String>(p),
                    None => r matches Err(m) && m@ == "missing ping result"@,
                },
            },
    {
        if let Some(error) = self.error {
            return Err(error.message);
        }
        match self.result {
            Some(p) => Ok(p),
            None => Err("missing ping result".to_owned()),
        }
    }
}

/// A workspace of the session.
#[derive(Debug, Clone)]
pub struct WorkspaceRecord {
    pub workspace_id: String,
    pub label: String,
}

/// A pane of the session.
#[derive(Debug, Clone)]
pub struct PaneRecord {
    pub id: String,
}

/// An agent of the session.
#[derive(Debug, Clone)]
pub struct AgentRecord {
    pub workspace_id: String,
    pub pane_id: String,
    pub agent: Option<String>,
    pub display_agent: Option<String>,
    pub title: Option<String>,
    pub agent_status: AgentState,
}

/// The name shown for an agent: the display name, else the agent name.
pub open spec fn shown_agent(display_agent: Option<String>, agent: Option<String>) -> Option<String> {
    match display_agent {
        Some(d) => Some(d),
        None => agent,
    }
}

impl AgentRecord {
    pub fn into_agent_info(self, session_id: &str, workspace_label: Option<String>) -> (r: AgentInfo)
        ensures
            r.session_id@ == session_id@,
            r.workspace_id == self.workspace_id,
            r.workspace_label == workspace_label,
            r.pane_id == self.pane_id,
            r.agent == shown_agent(self.display_agent, self.agent),
            r.title == self.title,
            r.state == self.agent_status,
    {
        AgentInfo {
            session_id: session_id.to_owned(),
            workspace_id: self.workspace_id,
            workspace_label,
            pane_id: self.pane_id,
            agent: match self.display_agent {
                Some(d) => Some(d),
                None => self.agent,
            },
            title: self.title,
            state: self.agent_status,
        }
    }
}

/// The state of a session.
#[derive(Debug, Clone)]
pub struct Snapshot {
    pub version: String,
    pub protocol: u32,
    pub panes: Vec<PaneRecord>,
    pub agents: Vec<AgentRecord>,
    pub workspaces: Vec<WorkspaceRecord>,
}

#[derive(Debug, Clone)]
pub struct SnapshotResult {
    pub snapshot: Snapshot,
}

/// A snapshot response: a result or an error.
#[derive(Debug, Clone)]
pub struct SnapshotResponse {
    pub result: Option<SnapshotResult>,
    pub error: Option<ApiError>,
}

impl SnapshotResponse {
    /// The result, unless Herdr reported an error (whose message is kept)
    /// or sent neither.
    pub fn into_result(self) -> (r: Result<SnapshotResult, String>)
        ensures
            match error_message(self.error) {
                Some(message) => r == Err::<SnapshotResult, String>(message),
                None => match self.result {
                    Some(p) => r == Ok::<SnapshotResult, String>(p),
                    None => r matches Err(m) && m@ == "missing snapshot result"@,
                },
            },
    {
        if let Some(error) = self.error {
            return Err(error.message);
        }
        match self.result {
            Some(p) => Ok(p),
            None => Err("missing snapshot result".to_owned()),
        }
    }
}

/// The acknowledgement of a subscription: whether a result came, or an
/// error.
#[derive(Debug, Clone)]
pub struct SubscribeResponse {
    pub has_result: bool,
    pub error: Option<ApiError>,
}

impl SubscribeResponse {
    /// Succeeds when Herdr acknowledged the subscription.
    pub fn ensure_ok(&self) -> (r: Result<(), String>)
        ensures
            match error_message(self.error) {
                Some(message) => r matches Err(m) && m == message,
                None => if self.has_result {
                    r is Ok
                } else {
                    r matches Err(m) && m@ == "missing subscription result"@
                },
            },
    {
        if let Some(error) = &self.error {
            return Err(error.message.clone());
        }
        if self.has_result {
            Ok(())
        } else {
            Err("missing subscription result".to_owned())
        }
    }
}

/// A status change of one agent.
#[derive(Debug, Clone)]
pub struct AgentStatusData {
    pub pane_id: String,
    pub workspace_id: String,
    pub agent_status: AgentState,
    pub agent: Option<String>,
    pub display_agent: Option<String>,
    pub title: Option<String>,
}

impl AgentStatusData {
    pub fn into_agent_info(self, session_id: &str, workspace_label: Option<String>) -> (r: AgentInfo)
        ensures
            r.session_id@ == session_id@,
            r.workspace_id == self.workspace_id,
            r.workspace_label == workspace_label,
            r.pane_id == self.pane_id,
            r.agent == shown_agent(self.display_agent, self.agent),
            r.title == self.title,
            r.state == self.agent_status,
    {
        AgentInfo {
            session_id: session_id.to_owned(),
            workspace_id: self.workspace_id,
            workspace_label,
            pane_id: self.pane_id,
            agent: match self.display_agent {
                Some(d) => Some(d),
                None => self.agent,
            },
            title: self.title,
            state: self.agent_status,
        }
    }
}

/// A pane that appeared, closed or exited.
#[derive(Debug, Clone)]
pub struct PaneLifecycleData {
    pub pane_id: String,
}

/// An event of a subscription.
#[derive(Debug, Clone)]
pub enum EventMessage {
    AgentStatus(AgentStatusData),
    PaneCreated(PaneLifecycleData),
    PaneClosed(PaneLifecycleData),
    PaneExited(PaneLifecycleData),
    AgentDetected(PaneLifecycleData),
    Other,
}

/// The lowercase hexadecimal digit for `n` below 16.
pub open spec fn hex_digit(n: int) -> char {
    seq!['0', '1', '2', '3', '4', '5', '6', '7', '8', '9', 'a', 'b', 'c', 'd', 'e', 'f'][n]
}

/// How serde_json writes one character inside a string literal: quote and
/// backslash after a backslash, backspace, tab, line feed, form feed and
/// carriage return as `\b`, `\t`, `\n`, `\f`, `\r`, the other characters
/// below U+0020 as `\u00` and two lowercase hex digits, and every other
/// character as itself.
pub open spec fn json_char_escape(c: char) -> Seq<char> {
    if c == '"' {
        seq!['\\', '"']
    } else if c == '\\' {
        seq!['\\', '\\']
    } else if c == '\u{8}' {
        seq!['\\', 'b']
    } else if c == '\t' {
        seq!['\\', 't']
    } else if c == '\n' {
        seq!['\\', 'n']
    } else if c == '\u{c}' {
        seq!['\\', 'f']
    } else if c == '\r' {
        seq!['\\', 'r']
    } else if (c as int) < 0x20 {
        seq!['\\', 'u', '0', '0', hex_digit((c as int) / 16), hex_digit((c as int) % 16)]
    } else {
        seq![c]
    }
}

/// The characters of `s`, each written as inside a JSON string literal.
pub open spec fn json_escaped(s: Seq<char>) -> Seq<char>
    decreases s.len(),
{
    if s.len() == 0 {
        Seq::empty()
    } else {
        json_escaped(s.drop_last()) + json_char_escape(s.last())
    }
}

/// What `serde_json::to_string` gives for the text `s`: `s` escaped
/// between double quotes.
pub open spec fn json_string_literal(s: Seq<char>) -> Seq<char> {
    seq!['"'] + json_escaped(s) + seq!['"']
}

/// `serde_json::to_string` on a text. Serialising a `str` cannot fail, so
/// the error arm is never taken.
#[verifier::external_body]
fn json_quote(s: &str) -> (r: String)
    ensures
        r@ == json_string_literal(s@),
{
    match serde_json::to_string(s) {
        Ok(text) => text,
        Err(_) => String::new(),
    }
}

/// The subscription to status changes of one pane, as JSON (keys in
/// sorted order).
pub open spec fn status_subscription(pane_id: Seq<char>) -> Seq<char> {
    "{\"pane_id\":"@ + json_string_literal(pane_id) + ",\"type\":\"pane.agent_status_changed\"}"@
}

/// The status subscriptions of `pane_ids`, each after a comma.
pub open spec fn status_subscriptions(pane_ids: Seq<String>) -> Seq<char>
    decreases pane_ids.len(),
{
    if pane_ids.len() == 0 {
        Seq::empty()
    } else {
        status_subscriptions(pane_ids.drop_last()) + ","@ + status_subscription(pane_ids.last()@)
    }
}

/// The `events.subscribe` request: pane creation, closing, exit and agent
/// detection everywhere, and status changes of `pane_ids`.
pub open spec fn subscribe_text(pane_ids: Seq<String>) -> Seq<char> {
    "{\"id\":\"subscribe_1\",\"method\":\"events.subscribe\",\"params\":{\"subscriptions\":[{\"type\":\"pane.created\"},{\"type\":\"pane.closed\"},{\"type\":\"pane.exited\"},{\"type\":\"pane.agent_detected\"}"@
        + status_subscriptions(pane_ids) + "]}}"@
}

/// The one-line JSON request that subscribes to the events of `pane_ids`.
pub fn subscribe_request(pane_ids: &Vec<String>) -> (r: String)
    ensures
        r@ == subscribe_text(pane_ids@),
{
    let mut body = "{\"id\":\"subscribe_1\",\"method\":\"events.subscribe\",\"params\":{\"subscriptions\":[{\"type\":\"pane.created\"},{\"type\":\"pane.closed\"},{\"type\":\"pane.exited\"},{\"type\":\"pane.agent_detected\"}".to_owned();
    let ghost head = body@;
    let mut i: usize = 0;
    while i < pane_ids.len()
        invariant
            i <= pane_ids@.len(),
            body@ == head + status_subscriptions(pane_ids@.take(i as int)),
        decreases pane_ids@.len() - i,
    {
        let quoted = json_quote(pane_ids[i].as_str());
        let item = concat_str("{\"pane_id\":", quoted.as_str());
        let item = concat_str(item.as_str(), ",\"type\":\"pane.agent_status_changed\"}");
        assert(item@ == status_subscription(pane_ids@[i as int]@));
        let entry = concat_str(",", item.as_str());
        body = concat_str(body.as_str(), entry.as_str());
        proof {
            assert(pane_ids@.take(i + 1).drop_last() =~= pane_ids@.take(i as int));
            assert(body@ =~= head + status_subscriptions(pane_ids@.take(i + 1)));
        }
        i += 1;
    }
    assert(pane_ids@.take(i as int) =~= pane_ids@);
    concat_str(body.as_str(), "]}}")
}

} // verus!
