use oh_my_openagent_switch::commands::{
    active_status, apply_result, backup_step_error, document_fingerprint, import_label, imported_payload,
    plan_apply, read_role_json_text,
};
use oh_my_openagent_switch::config::fingerprint::fingerprint;
use oh_my_openagent_switch::config::jsonc::{parse_json, parse_jsonc};
use oh_my_openagent_switch::error::AppError;
use oh_my_openagent_switch::json::JsonValue;
use oh_my_openagent_switch::storage::active::{record_temp_path, ActiveRecord};
use oh_my_openagent_switch::storage::configs::{ConfigMeta, ConfigPayload, ConfigProvider, ProviderOptions};
use oh_my_openagent_switch::storage::detect::ActiveStatus;
use oh_my_openagent_switch::storage::import::read_opencode_provider_text;
use oh_my_openagent_switch::strmap::StrMap;
use oh_my_openagent_switch::timestamp::Timestamp;

fn str_at(v: &JsonValue, path: &[&str]) -> Option<String> {
    let mut cur = v;
    for k in path {
        cur = cur.get(k)?;
    }
    match cur {
        JsonValue::Str(s) => Some(s.clone()),
        _ => None,
    }
}

fn apply_payload() -> ConfigPayload {
    let mut agents = StrMap::new();
    agents.insert("coder".to_string(), "gpt-4o".to_string());
    let mut categories = StrMap::new();
    categories.insert("default".to_string(), "gpt-4o".to_string());
    ConfigPayload {
        label: "apply-test".to_string(),
        provider: ConfigProvider {
            name: "openai".to_string(),
            npm: "@ai-sdk/openai".to_string(),
            options: ProviderOptions { api_key: "sk-test".to_string(), base_url: "https://api.openai.com".to_string() },
            models: StrMap::new(),
        },
        agents,
        categories,
        source: None,
    }
}

#[test]
fn test_import_from_opencode() {
    let fixture = r#"{
            "provider": {
                "omos": {
                    "name": "anthropic",
                    "npm": "@anthropic/anthropic-sdk",
                    "options": {
                        "apiKey": "sk-ant-test",
                        "baseURL": "https://api.anthropic.com"
                    },
                    "models": {
                        "sonnet-3-5": {
                            "name": "sonnet-3-5-20241022",
                            "group": "sonnet"
                        }
                    }
                }
            }
        }"#;
    let provider = read_opencode_provider_text(fixture).unwrap();
    assert!(provider.is_some());
    let label = import_label(Timestamp { secs: 1_700_000_000, nanos: 0 }).unwrap();
    let payload = imported_payload(label, provider.unwrap());
    assert_eq!(payload.provider.name, "anthropic");
    assert_eq!(payload.provider.npm, "@anthropic/anthropic-sdk");
    assert_eq!(payload.provider.options.api_key, "sk-ant-test");
    assert_eq!(payload.provider.models.get("sonnet-3-5").unwrap().name, "sonnet-3-5-20241022");
}

#[test]
fn test_get_active_status() {
    let opencode_text = r#"{"agents":{}}"#;
    let omos_text = r#"{"agents":{}}"#;
    let opencode_fp = fingerprint(&parse_jsonc(opencode_text).unwrap());
    let omos_fp = fingerprint(&parse_json(omos_text).unwrap());
    let now = Timestamp { secs: 1_700_000_000, nanos: 0 };
    let record = Some(Ok(ActiveRecord::new(&"config-001".to_string(), now, &opencode_fp, &omos_fp)));
    let configs = vec![ConfigMeta { id: "config-001".to_string(), label: "test".to_string(), updated_at: now }];

    let status = active_status(&configs, &record, Some(opencode_text), Some(omos_text));
    assert_eq!(status, ActiveStatus::Active { config_id: "config-001".to_string() });

    let changed = r#"{"agents":{"coder":"gpt-4o"}}"#;
    let status = active_status(&configs, &record, Some(changed), Some(omos_text));
    assert_eq!(status, ActiveStatus::Drifted { config_id: "config-001".to_string() });

    let status = active_status(&vec![], &record, Some(changed), Some(omos_text));
    assert_eq!(status, ActiveStatus::Orphan { reference_id: "config-001".to_string() });

    let status = active_status(&configs, &None, Some(changed), Some(omos_text));
    assert_eq!(status, ActiveStatus::Unknown);

    // an activation record that does not decode counts as none
    let corrupt = Some(Err(AppError::InvalidJson { path: "expected value".to_string() }));
    let status = active_status(&configs, &corrupt, Some(opencode_text), Some(omos_text));
    assert_eq!(status, ActiveStatus::Unknown);
}

#[test]
fn apply_plan_writes_both_documents() {
    let original_content = r#"{
            "$schema": "https://example.com/schema.json",
            "plugin": ["some-plugin"]
        }"#;
    let plan = plan_apply(&apply_payload(), Some(original_content)).unwrap();
    assert!(plan.opencode_text.contains("openai"), "opencode.jsonc 应包含 omos name");
    assert!(plan.opencode_text.contains("\"plugin\""), "opencode.jsonc 应保留原有 plugin 字段");
    assert!(plan.omos_text.contains("\"model\""), "omos agents 应为对象格式");
    assert!(plan.omos_text.contains("omos/gpt-4o"), "omos model 引用应固定用 omos/ 前缀");
    assert_eq!(str_at(&plan.opencode, &["provider", "omos", "options", "apiKey"]).as_deref(), Some("sk-test"));
    assert_eq!(str_at(&plan.opencode, &["$schema"]).as_deref(), Some("https://example.com/schema.json"));
    assert_eq!(str_at(&plan.omos, &["categories", "default", "model"]).as_deref(), Some("omos/gpt-4o"));
    assert_eq!(plan.fingerprints.opencode, fingerprint(&plan.opencode));
    assert_eq!(plan.fingerprints.omos, fingerprint(&plan.omos));
    let result = apply_result(vec!["/b/opencode-x.json".to_string()], Timestamp { secs: 5, nanos: 0 });
    assert!(result.opencode_updated);
    assert!(result.omos_updated);
    assert_eq!(result.backup_files.len(), 1);
}

#[test]
fn apply_plan_without_opencode_file() {
    let plan = plan_apply(&apply_payload(), None).unwrap();
    assert_eq!(str_at(&plan.opencode, &["provider", "omos", "name"]).as_deref(), Some("openai"));
    assert_eq!(plan.opencode.as_object().unwrap().len(), 1);
}

#[test]
fn apply_plan_refuses_broken_opencode() {
    assert!(matches!(plan_apply(&apply_payload(), Some("{ broken")), Err(AppError::JsoncParse { .. })));
}

#[test]
fn applied_documents_read_back_active() {
    let plan = plan_apply(&apply_payload(), Some(r#"{"plugin": ["p"]}"#)).unwrap();
    let now = Timestamp { secs: 1_700_000_000, nanos: 0 };
    let record = Some(Ok(ActiveRecord::new(&"id-1".to_string(), now, &plan.fingerprints.opencode, &plan.fingerprints.omos)));
    let configs = vec![ConfigMeta { id: "id-1".to_string(), label: "l".to_string(), updated_at: now }];
    assert_eq!(
        active_status(&configs, &record, Some(&plan.opencode_text), Some(&plan.omos_text)),
        ActiveStatus::Active { config_id: "id-1".to_string() }
    );
    assert_eq!(
        active_status(&configs, &record, None, Some(&plan.omos_text)),
        ActiveStatus::Drifted { config_id: "id-1".to_string() }
    );
}

#[test]
fn import_label_format() {
    assert_eq!(import_label(Timestamp { secs: 1_700_000_000, nanos: 0 }).as_deref(), Some("Imported-20231114221320"));
    assert_eq!(import_label(Timestamp { secs: i64::MIN, nanos: 0 }), None);
}

#[test]
fn backup_step_error_text() {
    let e = backup_step_error("opencode.jsonc", &AppError::FileNotFound { path: "/x".to_string() });
    assert_eq!(e, AppError::BackupFailed { reason: "备份 opencode.jsonc 失败: 文件未找到: /x".to_string() });
}

#[test]
fn role_json_strips_prefix() {
    let c = read_role_json_text(r#"{"agents": {"coder": {"model": "omos/gpt-4o"}}, "categories": {"web": {"model": "sonnet-3"}}}"#).unwrap();
    assert_eq!(c.agents.get("coder"), Some(&"gpt-4o".to_string()));
    assert_eq!(c.categories.get("web"), Some(&"sonnet-3".to_string()));
    assert!(matches!(read_role_json_text("nope"), Err(AppError::InvalidJson { .. })));
}

#[test]
fn document_fingerprints() {
    assert_eq!(document_fingerprint(None, true), None);
    assert_eq!(document_fingerprint(Some("{ // c\n }"), true), Some(fingerprint(&parse_json("{}").unwrap())));
    assert_eq!(document_fingerprint(Some("{ // c\n }"), false), None);
}

#[test]
fn record_temp_file() {
    assert_eq!(record_temp_path("/c/active.json", false), "/c/active.json.tmp");
    assert_eq!(record_temp_path("/", false), "/");
}

#[test]
fn applied_documents_import_back() {
    let mut payload = apply_payload();
    payload.provider.models.insert(
        "GPT-4o".to_string(),
        oh_my_openagent_switch::storage::configs::ModelEntry { name: "GPT 4o".to_string(), group: Some("chat".to_string()), modalities: None },
    );
    let plan = plan_apply(&payload, Some(r#"{"provider": {"other": {"name": "x"}}, "plugin": []}"#)).unwrap();
    let provider = read_opencode_provider_text(&plan.opencode_text).unwrap().unwrap();
    assert_eq!(provider.name, "openai");
    assert_eq!(provider.options.base_url, "https://api.openai.com");
    assert_eq!(provider.models.len(), 1);
    assert_eq!(provider.models.get("GPT-4o").unwrap().group.as_deref(), Some("chat"));
    let (agents, categories) = oh_my_openagent_switch::storage::import::read_omos_roles_text(&plan.omos_text).unwrap();
    // the reference "gpt-4o" is written with the provider model's spelling
    assert_eq!(agents.get("coder"), Some(&"omos/GPT-4o".to_string()));
    assert_eq!(categories.get("default"), Some(&"omos/GPT-4o".to_string()));
}

fn make_provider_payload(label: &str, api_key: &str, base_url: &str) -> ConfigPayload {
    let mut models = StrMap::new();
    models.insert(
        "gpt-4o".to_string(),
        oh_my_openagent_switch::storage::configs::ModelEntry {
            name: "gpt-4o".to_string(),
            group: Some("chat".to_string()),
            modalities: None,
        },
    );
    let mut agents = StrMap::new();
    agents.insert("coder".to_string(), "gpt-4o".to_string());
    let mut categories = StrMap::new();
    categories.insert("default".to_string(), "gpt-4o".to_string());
    ConfigPayload {
        label: label.to_string(),
        provider: ConfigProvider {
            name: "openai".to_string(),
            npm: "@ai-sdk/openai".to_string(),
            options: ProviderOptions { api_key: api_key.to_string(), base_url: base_url.to_string() },
            models,
        },
        agents,
        categories,
        source: None,
    }
}

#[test]
fn integration_test_test_merge_removes_other_providers() {
    let initial = r#"{
        "provider": {
            "anthropic": {
                "name": "Anthropic",
                "npm": "@ai-sdk/anthropic",
                "options": {
                    "apiKey": "anthro-key-original"
                }
            }
        }
    }"#;
    let payload = make_provider_payload("merge-test", "sk-openai-key", "https://api.openai.com/v1");
    let plan = plan_apply(&payload, Some(initial)).unwrap();
    let value = parse_jsonc(&plan.opencode_text).unwrap();
    let provider = value.get("provider").unwrap();
    assert!(provider.get("anthropic").is_none(), "anthropic provider 应被删除");
    assert_eq!(str_at(&value, &["provider", "omos", "name"]).as_deref(), Some("openai"));
    assert_eq!(str_at(&value, &["provider", "omos", "options", "apiKey"]).as_deref(), Some("sk-openai-key"));
    assert_eq!(str_at(&value, &["provider", "omos", "options", "baseURL"]).as_deref(), Some("https://api.openai.com/v1"));
    assert!(
        matches!(provider.get("omos").and_then(|o| o.get("models")).and_then(|m| m.get("gpt-4o")), Some(JsonValue::Object(_))),
        "omos models.gpt-4o 应存在"
    );
}
