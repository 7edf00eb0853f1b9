use orpheus::config::{environment_listed, PolicyConfig};
use orpheus::policy::{evaluate_policy, policy_gate, GateDecision, PolicyCheckRequest};
use orpheus::policy_engine::{validate, PolicyEngine, ValidateRequest};

fn config() -> PolicyConfig {
    PolicyConfig {
        allow_environments: vec!["prod".to_string(), "staging".to_string()],
        max_payload_size: 100,
    }
}

fn request(environment: &str, payload_size: usize) -> PolicyCheckRequest {
    PolicyCheckRequest { environment: environment.to_string(), payload_size }
}

#[test]
fn evaluate_policy_allows_listed_environment_within_limit() {
    let r = evaluate_policy(&config(), &request("prod", 10));
    assert!(r.allowed);
    assert_eq!(r.reason, "Policy check passed");
}

#[test]
fn evaluate_policy_allows_payload_at_the_limit() {
    let r = evaluate_policy(&config(), &request("staging", 100));
    assert!(r.allowed);
    assert_eq!(r.reason, "Policy check passed");
}

#[test]
fn evaluate_policy_refuses_unlisted_environment() {
    let r = evaluate_policy(&config(), &request("dev", 10));
    assert!(!r.allowed);
    assert_eq!(r.reason, "Environment 'dev' not allowed");
}

#[test]
fn evaluate_policy_checks_environment_before_size() {
    let r = evaluate_policy(&config(), &request("dev", 1000));
    assert!(!r.allowed);
    assert_eq!(r.reason, "Environment 'dev' not allowed");
}

#[test]
fn evaluate_policy_refuses_oversized_payload() {
    let r = evaluate_policy(&config(), &request("prod", 101));
    assert!(!r.allowed);
    assert_eq!(r.reason, "Payload size exceeds limit");
}

#[test]
fn evaluate_policy_with_empty_allow_list_refuses_everything() {
    let empty = PolicyConfig { allow_environments: vec![], max_payload_size: 100 };
    let r = evaluate_policy(&empty, &request("", 0));
    assert!(!r.allowed);
    assert_eq!(r.reason, "Environment '' not allowed");
}

#[test]
fn environment_match_is_exact() {
    let list = vec!["prod".to_string()];
    assert!(environment_listed(&list, "prod"));
    assert!(!environment_listed(&list, "Prod"));
    assert!(!environment_listed(&list, "pro"));
    assert!(!environment_listed(&list, "prod "));
}

#[test]
fn gate_forwards_allowed_request() {
    assert!(matches!(policy_gate(&config(), &request("prod", 5)), GateDecision::Forward));
}

#[test]
fn gate_rejects_with_policy_response() {
    match policy_gate(&config(), &request("prod", 500)) {
        GateDecision::Reject(r) => {
            assert!(!r.allowed);
            assert_eq!(r.reason, "Payload size exceeds limit");
        }
        GateDecision::Forward => panic!("oversized payload forwarded"),
    }
}

#[test]
fn engine_validate_environment_messages() {
    let engine = PolicyEngine::new(config());
    assert_eq!(engine.validate_environment("staging"), Ok(()));
    assert_eq!(
        engine.validate_environment("qa"),
        Err("Environment 'qa' is not allowed".to_string())
    );
}

#[test]
fn engine_validate_payload_size_messages() {
    let engine = PolicyEngine::new(config());
    assert_eq!(engine.validate_payload_size(0), Ok(()));
    assert_eq!(engine.validate_payload_size(100), Ok(()));
    assert_eq!(
        engine.validate_payload_size(101),
        Err("Payload size 101 exceeds maximum allowed 100".to_string())
    );
}

#[test]
fn validate_route_success() {
    let engine = PolicyEngine::new(config());
    let r = validate(&engine, &ValidateRequest { environment: "prod".to_string(), payload_size: 42 });
    assert!(r.allowed);
    assert_eq!(r.message, "Validation successful");
}

#[test]
fn validate_route_reports_environment_first() {
    let engine = PolicyEngine::new(config());
    let r = validate(&engine, &ValidateRequest { environment: "dev".to_string(), payload_size: 9000 });
    assert!(!r.allowed);
    assert_eq!(r.message, "Environment 'dev' is not allowed");
}

#[test]
fn validate_route_reports_payload_size() {
    let engine = PolicyEngine::new(config());
    let r = validate(&engine, &ValidateRequest { environment: "prod".to_string(), payload_size: 9000 });
    assert!(!r.allowed);
    assert_eq!(r.message, "Payload size 9000 exceeds maximum allowed 100");
}

#[test]
fn validate_route_agrees_with_policy_evaluation() {
    let engine = PolicyEngine::new(config());
    for env in ["prod", "staging", "dev", ""] {
        for size in [0usize, 99, 100, 101, usize::MAX] {
            let a = validate(&engine, &ValidateRequest { environment: env.to_string(), payload_size: size });
            let b = evaluate_policy(&config(), &request(env, size));
            assert_eq!(a.allowed, b.allowed);
            assert_eq!(a.allowed, (env == "prod" || env == "staging") && size <= 100);
        }
    }
}
