//! The connection status and metrics that the desktop shell shows.

use vstd::prelude::*;
use crate::agents::{aggregate_of, quiet_of, AgentCache, AggregateState};
use crate::config::{HerdrConfig, ObservationMode};
use crate::text::{byte_prefix, clone_option, truncate_bytes, truncates_cleanly};

verus! {

/// `SystemTime::now` from std, as milliseconds since the Unix epoch (0
/// before it). It depends on the clock, so nothing is stated of it.
#[verifier::external_body]
fn unix_time_ms() -> u64 {
    match std::time::SystemTime::now().duration_since(std::time::UNIX_EPOCH) {
        Ok(duration) => duration.as_millis() as u64,
        Err(_) => 0,
    }
}

/// The state of the connection to Herdr.
#[derive(Debug, Clone, Copy, PartialEq, Eq, Structural)]
pub enum ConnectionState {
    Disconnected,
    Connecting,
    Connected,
}

/// What the shell shows of the connection.
#[derive(Debug, Clone)]
pub struct ConnectionStatus {
    pub state: ConnectionState,
    pub socket_path: Option<String>,
    pub version: Option<String>,
    pub protocol: Option<u32>,
    pub agent_count: usize,
    pub last_error: Option<String>,
    pub retry_in_ms: Option<u64>,
}

impl Default for ConnectionStatus {
    fn default() -> (r: ConnectionStatus)
        ensures
            r.state == ConnectionState::Disconnected,
            r.socket_path is None,
            r.version is None,
            r.protocol is None,
            r.agent_count == 0,
            r.last_error is None,
            r.retry_in_ms is None,
    {
        ConnectionStatus {
            state: ConnectionState::Disconnected,
            socket_path: None,
            version: None,
            protocol: None,
            agent_count: 0,
            last_error: None,
            retry_in_ms: None,
        }
    }
}

impl ConnectionStatus {
    /// A connection attempt to the endpoint shown as `socket_path` starts.
    pub fn mark_connecting(&mut self, socket_path: String)
        ensures
            final(self).state == ConnectionState::Connecting,
            final(self).socket_path == Some(socket_path),
            final(self).last_error is None,
            final(self).retry_in_ms is None,
            final(self).version == old(self).version,
            final(self).protocol == old(self).protocol,
            final(self).agent_count == old(self).agent_count,
    {
        self.state = ConnectionState::Connecting;
        self.socket_path = Some(socket_path);
        self.last_error = None;
        self.retry_in_ms = None;
    }

    /// The handshake with Herdr `version` speaking `protocol` succeeded.
    pub fn mark_connected(&mut self, version: String, protocol: u32)
        ensures
            final(self).state == ConnectionState::Connected,
            final(self).version == Some(version),
            final(self).protocol == Some(protocol),
            final(self).last_error is None,
            final(self).retry_in_ms is None,
            final(self).socket_path == old(self).socket_path,
            final(self).agent_count == old(self).agent_count,
    {
        self.state = ConnectionState::Connected;
        self.version = Some(version);
        self.protocol = Some(protocol);
        self.last_error = None;
        self.retry_in_ms = None;
    }

    /// The connection failed with `error`; the next attempt is in
    /// `retry_in_ms`.
    pub fn mark_disconnected(&mut self, error: String, retry_in_ms: u64)
        ensures
            final(self).state == ConnectionState::Disconnected,
            final(self).last_error == Some(error),
            final(self).retry_in_ms == Some(retry_in_ms),
            final(self).socket_path == old(self).socket_path,
            final(self).version == old(self).version,
            final(self).protocol == old(self).protocol,
            final(self).agent_count == old(self).agent_count,
    {
        self.state = ConnectionState::Disconnected;
        self.last_error = Some(error);
        self.retry_in_ms = Some(retry_in_ms);
    }

    pub fn is_connected(&self) -> (r: bool)
        ensures
            r == (self.state == ConnectionState::Connected),
    {
        self.state == ConnectionState::Connected
    }
}

/// Counters and recent events for diagnostics.
#[derive(Debug, Clone)]
pub struct RuntimeMetrics {
    pub started_at_ms: u64,
    pub reconnect_count: u64,
    pub last_event_kind: Option<String>,
    pub last_event_at_ms: Option<u64>,
    pub avatar_runtime_error: Option<String>,
}

impl RuntimeMetrics {
    /// Metrics of a runtime that started at `started_at_ms`.
    pub fn new(started_at_ms: u64) -> (r: RuntimeMetrics)
        ensures
            r.started_at_ms == started_at_ms,
            r.reconnect_count == 0,
            r.last_event_kind is None,
            r.last_event_at_ms is None,
            r.avatar_runtime_error is None,
    {
        RuntimeMetrics {
            started_at_ms,
            reconnect_count: 0,
            last_event_kind: None,
            last_event_at_ms: None,
            avatar_runtime_error: None,
        }
    }

    /// Metrics of a runtime that starts now, by the system clock.
    pub fn start() -> (r: RuntimeMetrics)
        ensures
            r.reconnect_count == 0,
            r.last_event_kind is None,
            r.last_event_at_ms is None,
            r.avatar_runtime_error is None,
    {
        RuntimeMetrics::new(unix_time_ms())
    }

    /// Counts one failed connection.
    pub fn count_reconnect(&mut self)
        requires
            old(self).reconnect_count < u64::MAX,
        ensures
            final(self).reconnect_count == old(self).reconnect_count + 1,
            final(self).started_at_ms == old(self).started_at_ms,
            final(self).last_event_kind == old(self).last_event_kind,
            final(self).last_event_at_ms == old(self).last_event_at_ms,
            final(self).avatar_runtime_error == old(self).avatar_runtime_error,
    {
        self.reconnect_count = self.reconnect_count + 1;
    }

    /// Records an event of `kind` that happened now, by the system clock.
    pub fn record_event(&mut self, kind: &str)
        ensures
            final(self).last_event_kind matches Some(k) && k@ == kind@,
            final(self).last_event_at_ms is Some,
            final(self).started_at_ms == old(self).started_at_ms,
            final(self).reconnect_count == old(self).reconnect_count,
            final(self).avatar_runtime_error == old(self).avatar_runtime_error,
    {
        let now = unix_time_ms();
        self.record_event_at(kind, now);
    }

    /// Records an event of `kind` at `at_ms`.
    pub fn record_event_at(&mut self, kind: &str, at_ms: u64)
        ensures
            final(self).last_event_kind matches Some(k) && k@ == kind@,
            final(self).last_event_at_ms == Some(at_ms),
            final(self).started_at_ms == old(self).started_at_ms,
            final(self).reconnect_count == old(self).reconnect_count,
            final(self).avatar_runtime_error == old(self).avatar_runtime_error,
    {
        self.last_event_kind = Some(kind.to_owned());
        self.last_event_at_ms = Some(at_ms);
    }

    /// Records the avatar runtime's error (or its absence), cut to 500 bytes.
    pub fn report_avatar_runtime_error(&mut self, error: Option<String>)
        requires
            error matches Some(e) ==> truncates_cleanly(e@, 500),
        ensures
            match error {
                Some(e) => final(self).avatar_runtime_error matches Some(kept) && kept@ == byte_prefix(e@, 500),
                None => final(self).avatar_runtime_error is None,
            },
            final(self).started_at_ms == old(self).started_at_ms,
            final(self).reconnect_count == old(self).reconnect_count,
            final(self).last_event_kind == old(self).last_event_kind,
            final(self).last_event_at_ms == old(self).last_event_at_ms,
    {
        self.avatar_runtime_error = match error {
            Some(e) => Some(truncate_bytes(&e, 500)),
            None => None,
        };
    }
}

/// The mood to show: quiet mode hides work.
pub fn shown_aggregate(agents: &AgentCache, quiet: bool, connected: bool) -> (r: AggregateState)
    requires
        agents.wf(),
    ensures
        r == if quiet {
            quiet_of(aggregate_of(agents@, connected))
        } else {
            aggregate_of(agents@, connected)
        },
{
    if quiet {
        agents.aggregate_quiet(connected)
    } else {
        agents.aggregate(connected)
    }
}

/// The connection as the diagnostics report shows it: whether there was an
/// error, not its text, and not the socket path.
#[derive(Debug, Clone)]
pub struct DiagnosticConnection {
    pub state: ConnectionState,
    pub version: Option<String>,
    pub protocol: Option<u32>,
    pub agent_count: usize,
    pub has_error: bool,
}

/// The runtime metrics as the diagnostics report shows them: whether the
/// avatar runtime failed, not how.
#[derive(Debug, Clone)]
pub struct DiagnosticRuntime {
    pub started_at_ms: u64,
    pub reconnect_count: u64,
    pub last_event_kind: Option<String>,
    pub last_event_at_ms: Option<u64>,
    pub avatar_runtime_has_error: bool,
}

/// The settings that the diagnostics report shows: modes and flags, no
/// paths, sessions or ids.
#[derive(Debug, Clone)]
pub struct DiagnosticPreferences {
    pub observation_mode: ObservationMode,
    pub wsl_mode: bool,
    pub custom_avatar: bool,
    pub fps: u32,
    pub paused: bool,
}

/// The redacted view of the connection.
pub fn diagnostic_connection(c: &ConnectionStatus) -> (r: DiagnosticConnection)
    ensures
        r.state == c.state,
        r.version == c.version,
        r.protocol == c.protocol,
        r.agent_count == c.agent_count,
        r.has_error == (c.last_error is Some),
{
    DiagnosticConnection {
        state: c.state,
        version: clone_option(&c.version),
        protocol: c.protocol,
        agent_count: c.agent_count,
        has_error: c.last_error.is_some(),
    }
}

/// The redacted view of the metrics.
pub fn diagnostic_runtime(m: &RuntimeMetrics) -> (r: DiagnosticRuntime)
    ensures
        r.started_at_ms == m.started_at_ms,
        r.reconnect_count == m.reconnect_count,
        r.last_event_kind == m.last_event_kind,
        r.last_event_at_ms == m.last_event_at_ms,
        r.avatar_runtime_has_error == (m.avatar_runtime_error is Some),
{
    DiagnosticRuntime {
        started_at_ms: m.started_at_ms,
        reconnect_count: m.reconnect_count,
        last_event_kind: clone_option(&m.last_event_kind),
        last_event_at_ms: m.last_event_at_ms,
        avatar_runtime_has_error: m.avatar_runtime_error.is_some(),
    }
}

/// The settings shown in the diagnostics: the observation mode, whether WSL
/// mode is on, whether a custom avatar installation is chosen, the frame
/// rate and whether animation is paused.
pub fn diagnostic_preferences(herdr: &HerdrConfig, installation_id: &Option<String>, fps: u32, paused: bool) -> (r: DiagnosticPreferences)
    ensures
        r.observation_mode == herdr.observation.mode,
        r.wsl_mode == herdr.wsl.enabled,
        r.custom_avatar == (installation_id is Some),
        r.fps == fps,
        r.paused == paused,
{
    DiagnosticPreferences {
        observation_mode: herdr.observation.mode,
        wsl_mode: herdr.wsl.enabled,
        custom_avatar: installation_id.is_some(),
        fps,
        paused,
    }
}

} // verus!
