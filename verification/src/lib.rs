//! Decision logic of a desktop pet that watches Herdr agents: the agent
//! cache and its aggregate mood, pet intents with cooldowns, configuration
//! normalisation, the Herdr protocol records and connection decisions, and
//! Avatar Studio project inspection.

pub mod text;
pub mod agents;
pub mod config;
pub mod pet;
pub mod protocol;
pub mod transport;
pub mod discovery;
pub mod session;
pub mod runtime;
pub mod desktop;
pub mod avatar;
pub mod storage;
