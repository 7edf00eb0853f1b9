//! Deterministic policy evaluation of a request against a policy configuration.
use vstd::prelude::*;
use crate::config;
use crate::config::{PolicyConfig, environment_listed};

verus! {

/// A request to be checked: the environment it targets and the size of its payload.
pub struct PolicyCheckRequest {
    pub environment: String,
    pub payload_size: usize,
}

/// The outcome of a policy check, with the reason for it.
pub struct PolicyCheckResponse {
    pub allowed: bool,
    pub reason: String,
}

/// A request to verify a prompt against an environment's policy.
pub struct VerifyRequest {
    pub environment: String,
    pub prompt: String,
}

/// The answer to a [`VerifyRequest`].
pub struct VerifyResponse {
    pub allowed: bool,
    pub reason: String,
    pub response: Option<String>,
}

/// The verdict of the policy on a request: whether it is allowed, and the reason given.
/// The environment is checked first, then the payload size.
pub open spec fn policy_verdict(config: PolicyConfig, environment: Seq<char>, payload_size: nat) -> (
    bool,
    Seq<char>,
) {
    if !config::environment_allowed(config.allow_environments@, environment) {
        (false, "Environment '"@ + environment + "' not allowed"@)
    } else if payload_size > config.max_payload_size {
        (false, "Payload size exceeds limit"@)
    } else {
        (true, "Policy check passed"@)
    }
}

/// Checks a request against the policy.
pub fn evaluate_policy(config: &PolicyConfig, request: &PolicyCheckRequest) -> (response:
    PolicyCheckResponse)
    ensures
        (response.allowed, response.reason@) == policy_verdict(
            *config,
            request.environment@,
            request.payload_size as nat,
        ),
        response.allowed == (config.allow_environments@.map_values(|s: String| s@).contains(
            request.environment@,
        ) && request.payload_size <= config.max_payload_size),
        !config.allow_environments@.map_values(|s: String| s@).contains(request.environment@)
            ==> response.reason@ == "Environment '"@ + request.environment@ + "' not allowed"@,
        config.allow_environments@.map_values(|s: String| s@).contains(request.environment@)
            && request.payload_size > config.max_payload_size ==> response.reason@
            == "Payload size exceeds limit"@,
        response.allowed ==> response.reason@ == "Policy check passed"@,
{
    if !environment_listed(&config.allow_environments, request.environment.as_str()) {
        let mut reason = "Environment '".to_owned();
        reason.append(request.environment.as_str());
        reason.append("' not allowed");
        return PolicyCheckResponse { allowed: false, reason };
    }
    if request.payload_size > config.max_payload_size {
        return PolicyCheckResponse { allowed: false, reason: "Payload size exceeds limit".to_owned() };
    }
    PolicyCheckResponse { allowed: true, reason: "Policy check passed".to_owned() }
}

/// What the policy gate in front of the agent's routes does with a parsed request.
pub enum GateDecision {
    /// The request goes on to its handler, unchanged.
    Forward,
    /// The request is refused as forbidden, with the policy's response.
    Reject(PolicyCheckResponse),
}

/// Whether the policy lets a request pass.
pub fn policy_gate(config: &PolicyConfig, request: &PolicyCheckRequest) -> (decision: GateDecision)
    ensures
        match decision {
            GateDecision::Forward => policy_verdict(
                *config,
                request.environment@,
                request.payload_size as nat,
            ).0,
            GateDecision::Reject(response) => !response.allowed && (
                response.allowed,
                response.reason@,
            ) == policy_verdict(*config, request.environment@, request.payload_size as nat),
        },
        (decision is Forward) == (config.allow_environments@.map_values(|s: String| s@).contains(
            request.environment@,
        ) && request.payload_size <= config.max_payload_size),
{
    let result = evaluate_policy(config, request);
    if !result.allowed {
        GateDecision::Reject(result)
    } else {
        GateDecision::Forward
    }
}

} // verus!
