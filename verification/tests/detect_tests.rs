use oh_my_openagent_switch::storage::active::ActiveRecord;
use oh_my_openagent_switch::storage::configs::ConfigMeta;
use oh_my_openagent_switch::storage::detect::{detect_active, ActiveStatus};
use oh_my_openagent_switch::timestamp::Timestamp;

fn make_record(id: &str, opencode: &str, omos: &str) -> ActiveRecord {
    ActiveRecord::new(&id.to_string(), Timestamp { secs: 1_700_000_000, nanos: 0 }, &opencode.to_string(), &omos.to_string())
}

fn make_meta(id: &str) -> ConfigMeta {
    ConfigMeta { id: id.to_string(), label: "test".to_string(), updated_at: Timestamp { secs: 1_700_000_000, nanos: 0 } }
}

#[test]
fn test_detect_active_when_match() {
    let record = Some(make_record("config-001", "fp_a", "fp_b"));
    let configs = vec![make_meta("config-001"), make_meta("config-002")];
    let result = detect_active(&configs, &record, Some("fp_a"), Some("fp_b"));
    assert_eq!(result, ActiveStatus::Active { config_id: "config-001".to_string() });
}

#[test]
fn test_detect_drifted_when_mismatch() {
    let record = Some(make_record("config-001", "fp_old", "fp_b"));
    let configs = vec![make_meta("config-001")];
    let result = detect_active(&configs, &record, Some("fp_new"), Some("fp_b"));
    assert_eq!(result, ActiveStatus::Drifted { config_id: "config-001".to_string() });
}

#[test]
fn detect_unknown_without_record() {
    let configs = vec![make_meta("config-001")];
    assert_eq!(detect_active(&configs, &None, Some("a"), Some("b")), ActiveStatus::Unknown);
}

#[test]
fn detect_orphan_for_unknown_config() {
    let record = Some(make_record("gone", "a", "b"));
    let configs = vec![make_meta("config-001")];
    assert_eq!(
        detect_active(&configs, &record, Some("a"), Some("b")),
        ActiveStatus::Orphan { reference_id: "gone".to_string() }
    );
}

#[test]
fn detect_missing_document_counts_as_empty_fingerprint() {
    let configs = vec![make_meta("c")];
    let record = Some(make_record("c", "", "b"));
    assert_eq!(detect_active(&configs, &record, None, Some("b")), ActiveStatus::Active { config_id: "c".to_string() });
    let record = Some(make_record("c", "a", "b"));
    assert_eq!(detect_active(&configs, &record, None, Some("b")), ActiveStatus::Drifted { config_id: "c".to_string() });
}
