use oh_my_openagent_switch::config::jsonc::parse_json;
use oh_my_openagent_switch::error::AppError;
use oh_my_openagent_switch::json::JsonValue;
use oh_my_openagent_switch::storage::configs::{apply_update, new_config, Config};
use oh_my_openagent_switch::storage::import::{
    auto_import_config, auto_import_payload, auto_import_source, check_import_document, extract_provider_of,
    extract_roles_of, find_config_by_source, read_omos_provider_text, read_omos_roles_text,
    read_opencode_provider_text,
};
use oh_my_openagent_switch::timestamp::Timestamp;

fn str_member(v: &JsonValue, key: &str) -> Option<String> {
    match v.get(key) {
        Some(JsonValue::Str(s)) => Some(s.clone()),
        _ => None,
    }
}

#[test]
fn test_read_opencode_no_omos() {
    let result = read_opencode_provider_text(
        r#"{
                    "provider": {}
                }"#,
    );
    assert!(result.is_ok());
    assert!(result.unwrap().is_none());
}

#[test]
fn test_read_opencode_picks_first_provider() {
    let result = read_opencode_provider_text(
        r#"{
                    "provider": {
                        "openai": {
                            "name": "openai",
                            "npm": "@ai-sdk/openai-compatible",
                            "options": {
                                "apiKey": "sk-test",
                                "baseURL": "https://api.openai.com/v1"
                            },
                            "models": {
                                "gpt-4o": {"name": "GPT-4o"}
                            }
                        }
                    }
                }"#,
    )
    .unwrap();
    let provider = result.expect("expected Some(provider)");
    assert_eq!(provider.name, "openai");
    assert_eq!(provider.npm, "@ai-sdk/openai-compatible");
    assert_eq!(provider.models.len(), 1);
}

#[test]
fn test_read_opencode_with_omos() {
    let jsonc_content = r#"{
                "provider": {
                    "omos": {
                        "name": "openai",
                        "npm": "@openai/plugin",
                        "options": {
                            "apiKey": "sk-test123",
                            "baseURL": "https://api.openai.com/v1"
                        },
                        "models": {
                            "gpt-4o": {
                                "name": "gpt-4o",
                                "group": "chat"
                            },
                            "gpt-4o-mini": {
                                "name": "gpt-4o-mini"
                            }
                        }
                    }
                }
            }"#;
    let result = read_opencode_provider_text(jsonc_content).unwrap();
    let provider = result.expect("expected Some(provider)");
    assert_eq!(provider.name, "openai");
    assert_eq!(provider.npm, "@openai/plugin");
    assert_eq!(provider.options.api_key, "sk-test123");
    assert_eq!(provider.options.base_url, "https://api.openai.com/v1");
    assert_eq!(provider.models.len(), 2);
    assert_eq!(provider.models.get("gpt-4o").unwrap().name, "gpt-4o");
    assert_eq!(provider.models.get("gpt-4o").unwrap().group, Some("chat".to_string()));
    assert_eq!(provider.models.get("gpt-4o-mini").unwrap().name, "gpt-4o-mini");
    assert_eq!(provider.models.get("gpt-4o-mini").unwrap().group, None);
}

#[test]
fn test_import_invalid_json() {
    let result = check_import_document("/tmp/x/invalid.json", "{ broken json }");
    assert!(result.is_err());
    assert!(matches!(result.unwrap_err(), AppError::InvalidJson { .. }));
}

#[test]
fn test_auto_import_creates_config() {
    let opencode = r#"{
                    "provider": {
                        "openai": {
                            "name": "openai",
                            "npm": "@ai-sdk/openai-compatible",
                            "options": {
                                "apiKey": "sk-test",
                                "baseURL": "https://api.openai.com/v1"
                            },
                            "models": {
                                "gpt-4o": {"name": "GPT-4o"}
                            }
                        }
                    }
                }"#;
    let omos = r#"{
                    "agents": {
                        "coder": {"model": "openai/gpt-4o"}
                    },
                    "categories": {
                        "web": {"model": "openai/gpt-4o"}
                    }
                }"#;
    let provider = read_opencode_provider_text(opencode).unwrap();
    let roles = read_omos_roles_text(omos).unwrap();
    let result = auto_import_payload("/home/u/.config/opencode", false, provider, Some(roles));
    assert!(result.is_some());
    let payload = result.unwrap();
    assert_eq!(payload.provider.name, "openai");
    assert_eq!(payload.provider.options.api_key, "sk-test");
    assert_eq!(payload.agents.get("coder"), Some(&"omos/gpt-4o".to_string()));
    assert_eq!(payload.categories.get("web"), Some(&"omos/gpt-4o".to_string()));
    assert!(payload.source.is_some());
}

#[test]
fn test_auto_import_returns_none_when_empty() {
    let result = auto_import_payload("/home/u/.config/opencode", false, None, None);
    assert!(result.is_none());
}

#[test]
fn auto_import_source_names_both_files() {
    assert_eq!(
        auto_import_source("/home/u/.config/opencode", false),
        "auto:/home/u/.config/opencode/opencode.jsonc|/home/u/.config/opencode/oh-my-openagent.json"
    );
    assert_eq!(auto_import_source("/d/", false), "auto:/d/opencode.jsonc|/d/oh-my-openagent.json");
}

#[test]
fn auto_import_with_roles_only_has_empty_provider() {
    let roles = read_omos_roles_text(r#"{"agents": {"a": {"model": "x/y"}}, "categories": {}}"#).unwrap();
    let p = auto_import_payload("/d", false, None, Some(roles)).unwrap();
    assert_eq!(p.label, "Auto-Imported");
    assert_eq!(p.provider.name, "");
    assert_eq!(p.provider.models.len(), 0);
    assert_eq!(p.agents.get("a"), Some(&"omos/y".to_string()));
    assert_eq!(p.categories.len(), 0);
    assert_eq!(p.source.as_deref(), Some("auto:/d/opencode.jsonc|/d/oh-my-openagent.json"));
}

#[test]
fn auto_import_finds_existing_by_source() {
    let opencode = r#"{"provider": {"omos": {"name": "openai", "npm": "p", "options": {"apiKey": "k", "baseURL": "u"}, "models": {}}}}"#;
    let omos = r#"{"agents": {}, "categories": {}}"#;
    let dir = "/home/u/.config/opencode";
    let source = auto_import_source(dir, false);
    let now = Timestamp { secs: 1_700_000_000, nanos: 0 };

    // first import: nothing carries the mark yet
    let mut configs: Vec<Config> = Vec::new();
    assert_eq!(find_config_by_source(&configs, &source), None);
    let payload = auto_import_payload(
        dir, false,
        read_opencode_provider_text(opencode).unwrap(),
        Some(read_omos_roles_text(omos).unwrap()),
    )
    .unwrap();
    let first = apply_update(new_config("first-id".to_string(), "Auto-Imported", now), payload, now);
    configs.push(new_config("other".to_string(), "other", now));
    configs.push(first);

    // second import finds the first one
    assert_eq!(find_config_by_source(&configs, &source), Some("first-id".to_string()));
}

#[test]
fn import_document_fields() {
    let json = r#"{
                "label": "imported-config",
                "provider": {
                    "name": "anthropic",
                    "npm": "@anthropic/plugin",
                    "options": {
                        "api_key": "sk-ant-test",
                        "base_url": "https://api.anthropic.com"
                    },
                    "models": {
                        "sonnet-3-5": {
                            "name": "sonnet-3-5-20241022",
                            "group": "sonnet"
                        }
                    }
                },
                "agents": {
                    "coder": "sonnet-3-5"
                },
                "categories": {
                    "default": "sonnet-3-5"
                }
            }"#;
    let doc = check_import_document("/tmp/source.json", json).unwrap();
    assert_eq!(doc.label, "imported-config");
    assert_eq!(str_member(&doc.provider, "name").as_deref(), Some("anthropic"));
    assert_eq!(doc.agents.get("coder"), Some(&"sonnet-3-5".to_string()));
    assert_eq!(doc.categories.get("default"), Some(&"sonnet-3-5".to_string()));
}

#[test]
fn import_document_errors_name_the_file() {
    match check_import_document("/a/b.json", "not json") {
        Err(AppError::InvalidJson { path }) => assert_eq!(path, "/a/b.json"),
        other => panic!("unexpected {:?}", other),
    }
    match check_import_document("/a/b.json", r#"{"label": "", "provider": {}}"#) {
        Err(AppError::InvalidJson { path }) => assert_eq!(path, "/a/b.json (missing or empty 'label')"),
        other => panic!("unexpected {:?}", other),
    }
    match check_import_document("/a/b.json", r#"{"provider": {}}"#) {
        Err(AppError::InvalidJson { path }) => assert_eq!(path, "/a/b.json (missing or empty 'label')"),
        other => panic!("unexpected {:?}", other),
    }
    match check_import_document("/a/b.json", r#"{"label": "x"}"#) {
        Err(AppError::InvalidJson { path }) => assert_eq!(path, "/a/b.json (missing 'provider')"),
        other => panic!("unexpected {:?}", other),
    }
    match check_import_document("/a/b.json", r#"{"label": "x", "provider": {}, "categories": {}}"#) {
        Err(AppError::InvalidJson { path }) => assert_eq!(path, "/a/b.json (missing 'agents')"),
        other => panic!("unexpected {:?}", other),
    }
    match check_import_document("/a/b.json", r#"{"label": "x", "provider": {}, "agents": {}}"#) {
        Err(AppError::InvalidJson { path }) => assert_eq!(path, "/a/b.json (missing 'categories')"),
        other => panic!("unexpected {:?}", other),
    }
}

#[test]
fn import_document_keeps_only_string_roles() {
    let doc = check_import_document(
        "/f.json",
        r#"{"label": "l", "provider": {"name": "p"}, "agents": {"a": "m1", "b": 3, "c": {"model": "x"}}, "categories": []}"#,
    )
    .unwrap();
    assert_eq!(doc.agents.len(), 1);
    assert_eq!(doc.agents.get("a"), Some(&"m1".to_string()));
    assert_eq!(doc.categories.len(), 0);
}

#[test]
fn roles_take_model_id_with_prefix() {
    let doc = parse_json(r#"{"agents": {"coder": {"model": "openai/gpt-4o"}, "x": {"other": 1}, "y": "plain"}}"#).unwrap();
    let roles = extract_roles_of(&doc, "agents", "omos/");
    assert_eq!(roles.len(), 1);
    assert_eq!(roles.get("coder"), Some(&"omos/gpt-4o".to_string()));
    let bare = extract_roles_of(&doc, "agents", "");
    assert_eq!(bare.get("coder"), Some(&"gpt-4o".to_string()));
}

#[test]
fn provider_read_defaults() {
    let doc = parse_json(r#"{"provider": {"b": {"name": "second"}, "a": {"models": {"m": {}}}}}"#).unwrap();
    let p = extract_provider_of(&doc).unwrap();
    // the first provider by key order is "a"
    assert_eq!(p.name, "");
    assert_eq!(p.options.api_key, "");
    assert_eq!(p.models.get("m").unwrap().name, "m");
    assert!(p.models.get("m").unwrap().modalities.is_none());
}

#[test]
fn provider_read_modalities() {
    let doc = parse_json(
        r#"{"provider": {"omos": {"models": {"m": {"name": "M", "modalities": {"input": ["text", 1, "image"]}}}}}}"#,
    )
    .unwrap();
    let p = extract_provider_of(&doc).unwrap();
    let m = p.models.get("m").unwrap().modalities.as_ref().unwrap();
    assert_eq!(m.input, vec!["text".to_string(), "image".to_string()]);
    assert!(m.output.is_empty());
}

#[test]
fn opencode_text_that_does_not_parse_is_an_error() {
    assert!(matches!(read_opencode_provider_text("{"), Err(AppError::JsoncParse { .. })));
    assert!(matches!(read_omos_roles_text("{"), Err(AppError::InvalidJson { .. })));
}

#[test]
fn import_from_opencode_needs_omos_block() {
    assert!(read_omos_provider_text(r#"{"provider": {"openai": {"name": "openai"}}}"#).unwrap().is_none());
    assert!(read_omos_provider_text(r#"{"plugin": []}"#).unwrap().is_none());
    let p = read_omos_provider_text(r#"{"provider": {"anthropic": {"name": "a"}, "omos": {"name": "o"}}}"#)
        .unwrap()
        .unwrap();
    assert_eq!(p.name, "o");
    assert!(read_omos_provider_text("{").is_err());
}

fn auto_payload(dir: &str) -> oh_my_openagent_switch::storage::configs::ConfigPayload {
    let opencode = r#"{"provider": {"omos": {"name": "openai", "npm": "p", "options": {"apiKey": "k", "baseURL": "u"}, "models": {}}}}"#;
    let omos = r#"{"agents": {}, "categories": {}}"#;
    auto_import_payload(
        dir,
        false,
        read_opencode_provider_text(opencode).unwrap(),
        Some(read_omos_roles_text(omos).unwrap()),
    )
    .unwrap()
}

/// Stores `c` as the store on disk does: in place of the configuration with
/// the same identifier, else after the others.
fn store(configs: &mut Vec<Config>, c: Config) {
    match configs.iter().position(|x| x.id == c.id) {
        Some(i) => configs[i] = c,
        None => configs.push(c),
    }
}

#[test]
fn test_auto_import_skips_if_exists() {
    let dir = "/tmp/opencode-dir";
    let t1 = Timestamp { secs: 1_700_000_000, nanos: 0 };
    let t2 = Timestamp { secs: 1_700_000_100, nanos: 0 };
    let mut configs: Vec<Config> = Vec::new();

    // first import
    let (first, is_new) = auto_import_config(&configs, auto_payload(dir), "id-1".to_string(), t1);
    assert!(is_new);
    let first_id = first.id.clone();
    store(&mut configs, first);
    assert_eq!(configs.len(), 1);

    // the second import updates the first one rather than creating a new one
    let (second, is_new) = auto_import_config(&configs, auto_payload(dir), "id-2".to_string(), t2);
    assert!(!is_new);
    assert_eq!(second.id, first_id);
    assert_eq!(second.created_at, t1);
    assert_eq!(second.updated_at, t2);
    assert_eq!(second.label, "Auto-Imported");
    store(&mut configs, second);
    assert_eq!(configs.len(), 1);
}

#[test]
fn auto_import_updates_first_marked_only() {
    let dir = "/d";
    let now = Timestamp { secs: 10, nanos: 0 };
    let later = Timestamp { secs: 20, nanos: 0 };
    let plain = new_config("plain".to_string(), "plain", now);
    let a = apply_update(new_config("a".to_string(), "Auto-Imported", now), auto_payload(dir), now);
    let b = apply_update(new_config("b".to_string(), "Auto-Imported", now), auto_payload(dir), now);
    let configs = vec![plain, a, b];
    let (c, is_new) = auto_import_config(&configs, auto_payload(dir), "fresh".to_string(), later);
    assert!(!is_new);
    assert_eq!(c.id, "a");
    assert_eq!(c.created_at, now);
    // another directory's import is new
    let (d, is_new) = auto_import_config(&configs, auto_payload("/elsewhere"), "fresh".to_string(), later);
    assert!(is_new);
    assert_eq!(d.id, "fresh");
    assert_eq!(d.created_at, later);
    assert_eq!(d.payload.source.as_deref(), Some("auto:/elsewhere/opencode.jsonc|/elsewhere/oh-my-openagent.json"));
}
