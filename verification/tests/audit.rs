use orpheus::audit::{event_payload, AuditEntry, AuditLogger};

const SECRET_HEX: &str = "9d61b19deffd5a60ba844af492ec2cc44449c5697b326919703bac031cae7f60";

fn secret() -> [u8; 32] {
    let bytes = hex::decode(SECRET_HEX).unwrap();
    let mut key = [0u8; 32];
    key.copy_from_slice(&bytes);
    key
}

fn first_entry(logger: &AuditLogger) -> AuditEntry {
    logger.log_event(None, "2024-01-01T00:00:00+00:00", "prod", 42, true, "Validation successful")
}

fn second_entry(logger: &AuditLogger, previous: &AuditEntry) -> AuditEntry {
    logger.log_event(
        Some(previous.hash.clone()),
        "2024-01-01T00:00:05+00:00",
        "dev",
        9000,
        false,
        "Environment 'dev' is not allowed",
    )
}

fn rows(entries: &[&AuditEntry]) -> Vec<(String, String)> {
    entries.iter().map(|e| (e.hash.clone(), e.signature.clone())).collect()
}

#[test]
fn first_entry_links_to_genesis_with_exact_hash_and_signature() {
    let logger = AuditLogger::new(secret());
    let e = first_entry(&logger);
    assert_eq!(e.previous_hash, "GENESIS");
    assert_eq!(e.timestamp, "2024-01-01T00:00:00+00:00");
    assert_eq!(e.environment, "prod");
    assert_eq!(e.payload_size, 42);
    assert!(e.allowed);
    assert_eq!(e.message, "Validation successful");
    assert_eq!(e.hash, "d7f627adad05d169fc48c9a8739d3a42fb136f2c6b97701419c2f93624ff2568");
    assert_eq!(
        e.signature,
        "07653b58c0639d2382d6a0389d949d518d4170b98010a74c5757c2e3827d1aa6413d5e8183599624aae56451d650d1d60ee0aee97638b38f748e41ad251aa500"
    );
}

#[test]
fn second_entry_links_to_first() {
    let logger = AuditLogger::new(secret());
    let first = first_entry(&logger);
    let second = second_entry(&logger, &first);
    assert_eq!(second.previous_hash, first.hash);
    assert!(!second.allowed);
    assert_eq!(second.hash, "6ff8309fb1488344cbdb6231e9a8415e799bd098cc6085c9ab5801635847b481");
    assert_eq!(
        second.signature,
        "7f6a16a64e8384c7b4d02507ba3981904d3f9c6775da8f4900e72da9155d72c631e1b13650456f40b19ed828ed4af7403ad1d53042d86f28ecf9eed9ff67590c"
    );
}

#[test]
fn entries_made_by_logger_verify() {
    let logger = AuditLogger::new(secret());
    let first = first_entry(&logger);
    let second = second_entry(&logger, &first);
    assert!(logger.verify_signatures(&rows(&[&first, &second])));
    assert!(logger.verify_signatures(&Vec::new()));
}

#[test]
fn signature_check_accepts_upper_case_hex() {
    let logger = AuditLogger::new(secret());
    let first = first_entry(&logger);
    let upper = vec![(first.hash.clone(), first.signature.to_uppercase())];
    assert!(logger.verify_signatures(&upper));
}

#[test]
fn tampered_hash_fails_verification() {
    let logger = AuditLogger::new(secret());
    let first = first_entry(&logger);
    let mut r = rows(&[&first]);
    r[0].0 = "0".repeat(64);
    assert!(!logger.verify_signatures(&r));
}

#[test]
fn signature_from_another_key_fails_verification() {
    let logger = AuditLogger::new(secret());
    let other = AuditLogger::new([7u8; 32]);
    let forged = first_entry(&other);
    assert!(!logger.verify_signatures(&rows(&[&forged])));
}

#[test]
fn check_stops_at_first_failure_before_malformed_signature() {
    let logger = AuditLogger::new(secret());
    let first = first_entry(&logger);
    let mut r = rows(&[&first]);
    r[0].0 = "tampered".to_string();
    r.push(("x".to_string(), "not hex".to_string()));
    assert!(!logger.verify_signatures(&r));
}

#[test]
fn chain_head_defaults_to_genesis() {
    let logger = AuditLogger::new(secret());
    assert_eq!(logger.chain_head(None), ("GENESIS".to_string(), 0));
    assert_eq!(logger.chain_head(Some(("abc".to_string(), 7))), ("abc".to_string(), 7));
}

#[test]
fn oversized_payload_is_stored_as_wrapped_integer() {
    let logger = AuditLogger::new(secret());
    let e = logger.log_event(None, "t", "prod", usize::MAX, false, "m");
    assert_eq!(e.payload_size, usize::MAX as i64);
}

#[test]
fn event_payload_joins_environment_and_size() {
    assert_eq!(event_payload("prod", 42), "prod:42");
    assert_eq!(event_payload("", 0), ":0");
}
