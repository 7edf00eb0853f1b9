//! The policy engine the agent's `/validate` route consults, and that route's decision.
use vstd::prelude::*;
use crate::config;
use crate::config::{PolicyConfig, environment_listed};
use crate::policy;
use crate::text;
use crate::text::decimal_string;

verus! {

/// Validates requests against a policy configuration.
pub struct PolicyEngine {
    policy: PolicyConfig,
}

/// The environment check: `Ok` when allowed, else the error message.
pub open spec fn environment_check(config: PolicyConfig, environment: Seq<char>) -> Result<
    (),
    Seq<char>,
> {
    if config::environment_allowed(config.allow_environments@, environment) {
        Ok(())
    } else {
        Err("Environment '"@ + environment + "' is not allowed"@)
    }
}

/// The payload size check: `Ok` when within the limit, else the error message.
pub open spec fn payload_size_check(config: PolicyConfig, size: nat) -> Result<(), Seq<char>> {
    if size <= config.max_payload_size {
        Ok(())
    } else {
        Err(
            "Payload size "@ + text::decimal_chars(size) + " exceeds maximum allowed "@ + text::decimal_chars(
                config.max_payload_size as nat,
            ),
        )
    }
}

/// The answer of the `/validate` route: the environment is checked first, the payload size only
/// when the environment passed; the first failure's message is returned.
pub open spec fn validate_outcome(config: PolicyConfig, environment: Seq<char>, size: nat) -> (
    bool,
    Seq<char>,
) {
    match environment_check(config, environment) {
        Err(message) => (false, message),
        Ok(_) => match payload_size_check(config, size) {
            Err(message) => (false, message),
            Ok(_) => (true, "Validation successful"@),
        },
    }
}

impl PolicyEngine {
    /// The configuration this engine enforces.
    pub closed spec fn policy_config(&self) -> PolicyConfig {
        self.policy
    }

    pub fn new(policy: PolicyConfig) -> (engine: Self)
        ensures
            engine.policy_config() == policy,
    {
        Self { policy }
    }

    /// Checks that `env` is an allowed environment.
    pub fn validate_environment(&self, env: &str) -> (result: Result<(), String>)
        ensures
            match result {
                Ok(_) => environment_check(self.policy_config(), env@) is Ok,
                Err(message) => environment_check(self.policy_config(), env@) == Err::<
                    (),
                    Seq<char>,
                >(message@),
            },
            (result is Ok) == self.policy_config().allow_environments@.map_values(|s: String| s@).contains(
                env@,
            ),
            result matches Err(message) ==> message@ == "Environment '"@ + env@ + "' is not allowed"@,
    {
        if environment_listed(&self.policy.allow_environments, env) {
            Ok(())
        } else {
            let mut message = "Environment '".to_owned();
            message.append(env);
            message.append("' is not allowed");
            Err(message)
        }
    }

    /// Checks that `size` is within the payload limit.
    pub fn validate_payload_size(&self, size: usize) -> (result: Result<(), String>)
        ensures
            match result {
                Ok(_) => payload_size_check(self.policy_config(), size as nat) is Ok,
                Err(message) => payload_size_check(self.policy_config(), size as nat) == Err::<
                    (),
                    Seq<char>,
                >(message@),
            },
            (result is Ok) == (size <= self.policy_config().max_payload_size),
            result matches Err(message) ==> message@ == "Payload size "@ + text::decimal_chars(
                size as nat,
            ) + " exceeds maximum allowed "@ + text::decimal_chars(
                self.policy_config().max_payload_size as nat,
            ),
    {
        if size <= self.policy.max_payload_size {
            Ok(())
        } else {
            let mut message = "Payload size ".to_owned();
            message.append(decimal_string(size as u64).as_str());
            message.append(" exceeds maximum allowed ");
            message.append(decimal_string(self.policy.max_payload_size as u64).as_str());
            Err(message)
        }
    }
}

/// The body of a `/validate` request.
pub struct ValidateRequest {
    pub environment: String,
    pub payload_size: usize,
}

/// The answer to a `/validate` request.
pub struct ValidateResponse {
    pub allowed: bool,
    pub message: String,
}

/// Decides a `/validate` request: the environment check, then the payload size check.
pub fn validate(engine: &PolicyEngine, request: &ValidateRequest) -> (response: ValidateResponse)
    ensures
        (response.allowed, response.message@) == validate_outcome(
            engine.policy_config(),
            request.environment@,
            request.payload_size as nat,
        ),
        response.allowed == (engine.policy_config().allow_environments@.map_values(|s: String| s@).contains(
            request.environment@,
        ) && request.payload_size <= engine.policy_config().max_payload_size),
        response.allowed ==> response.message@ == "Validation successful"@,
        !engine.policy_config().allow_environments@.map_values(|s: String| s@).contains(
            request.environment@,
        ) ==> response.message@ == "Environment '"@ + request.environment@ + "' is not allowed"@,
        engine.policy_config().allow_environments@.map_values(|s: String| s@).contains(
            request.environment@,
        ) && request.payload_size > engine.policy_config().max_payload_size ==> response.message@
            == "Payload size "@ + text::decimal_chars(request.payload_size as nat)
            + " exceeds maximum allowed "@ + text::decimal_chars(
            engine.policy_config().max_payload_size as nat,
        ),
{
    let mut allowed = true;
    let mut message = "Validation successful".to_owned();
    match engine.validate_environment(request.environment.as_str()) {
        Err(e) => {
            allowed = false;
            message = e;
        },
        Ok(_) => {},
    }
    if allowed {
        match engine.validate_payload_size(request.payload_size) {
            Err(e) => {
                allowed = false;
                message = e;
            },
            Ok(_) => {},
        }
    }
    ValidateResponse { allowed, message }
}

/// The `/validate` route and the policy evaluation agree on every request: a request is allowed
/// by one exactly when it is allowed by the other, and that is when its environment is listed
/// and its payload size is within the limit.
pub proof fn lemma_validate_agrees_with_policy(
    config: PolicyConfig,
    environment: Seq<char>,
    size: nat,
)
    ensures
        validate_outcome(config, environment, size).0 == policy::policy_verdict(config, environment, size).0,
        policy::policy_verdict(config, environment, size).0 == (config::environment_allowed(
            config.allow_environments@,
            environment,
        ) && size <= config.max_payload_size),
        validate_outcome(config, environment, size).0 == (environment_check(config, environment) is Ok
            && payload_size_check(config, size) is Ok),
        validate_outcome(config, environment, size).0 == (config.allow_environments@.map_values(
            |s: String| s@,
        ).contains(environment) && size <= config.max_payload_size),
        policy::policy_verdict(config, environment, size).0 == (config.allow_environments@.map_values(
            |s: String| s@,
        ).contains(environment) && size <= config.max_payload_size),
{
    config::lemma_environment_allowed_is_membership(config.allow_environments@, environment);
}

} // verus!
