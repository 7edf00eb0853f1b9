//! Policy enforcement and tamper-evident auditing for an infrastructure agent.
pub mod text;
pub mod crypto;
pub mod config;
pub mod policy;
pub mod policy_engine;
pub mod audit;
pub mod control;
pub mod identity;
pub mod heartbeat;
pub mod agent_core;
