use oh_my_openagent_switch::config::jsonc::{pretty_json, strip_jsonc_comments, parse_json};
use oh_my_openagent_switch::config::merge::{build_oh_my_openagent, merge_opencode, OH_MY_OPENCODE_SCHEMA};
use oh_my_openagent_switch::json::JsonValue;
use oh_my_openagent_switch::storage::configs::{
    ConfigPayload, ConfigProvider, Modalities, ModelEntry, ProviderOptions,
};
use oh_my_openagent_switch::strmap::StrMap;

fn at<'a>(v: &'a JsonValue, path: &[&str]) -> Option<&'a JsonValue> {
    let mut cur = v;
    for k in path {
        cur = cur.get(k)?;
    }
    Some(cur)
}

fn str_at(v: &JsonValue, path: &[&str]) -> Option<String> {
    match at(v, path) {
        Some(JsonValue::Str(s)) => Some(s.clone()),
        _ => None,
    }
}

fn members<'a>(v: &'a JsonValue, path: &[&str]) -> &'a Vec<(String, JsonValue)> {
    at(v, path).and_then(|x| x.as_object()).expect("object")
}

fn payload_with_one_model(
    name: &str,
    npm: &str,
    api_key: &str,
    base_url: &str,
    model_id: &str,
    model_name: &str,
    group: Option<&str>,
) -> ConfigPayload {
    let mut models = StrMap::new();
    models.insert(
        model_id.to_string(),
        ModelEntry { name: model_name.to_string(), group: group.map(|s| s.to_string()), modalities: None },
    );
    ConfigPayload {
        label: "test-payload".to_string(),
        provider: ConfigProvider {
            name: name.to_string(),
            npm: npm.to_string(),
            options: ProviderOptions { api_key: api_key.to_string(), base_url: base_url.to_string() },
            models,
        },
        agents: StrMap::new(),
        categories: StrMap::new(),
        source: None,
    }
}

fn payload_with_modalities(model_id: &str, input: Vec<&str>, output: Vec<&str>) -> ConfigPayload {
    let mut models = StrMap::new();
    models.insert(
        model_id.to_string(),
        ModelEntry {
            name: format!("{}-name", model_id),
            group: None,
            modalities: Some(Modalities {
                input: input.iter().map(|s| s.to_string()).collect(),
                output: output.iter().map(|s| s.to_string()).collect(),
            }),
        },
    );
    ConfigPayload {
        label: "test-payload".to_string(),
        provider: ConfigProvider {
            name: "OpenAI".to_string(),
            npm: "@ai-sdk/openai".to_string(),
            options: ProviderOptions { api_key: "k".to_string(), base_url: "u".to_string() },
            models,
        },
        agents: StrMap::new(),
        categories: StrMap::new(),
        source: None,
    }
}

fn roles_payload(name: &str, models: StrMap<ModelEntry>, agents: &[(&str, &str)], categories: &[(&str, &str)]) -> ConfigPayload {
    let mut a = StrMap::new();
    for (k, v) in agents {
        a.insert(k.to_string(), v.to_string());
    }
    let mut c = StrMap::new();
    for (k, v) in categories {
        c.insert(k.to_string(), v.to_string());
    }
    ConfigPayload {
        label: "label".to_string(),
        provider: ConfigProvider {
            name: name.to_string(),
            npm: String::new(),
            options: ProviderOptions::default(),
            models,
        },
        agents: a,
        categories: c,
        source: None,
    }
}

#[test]
fn test_merge_options_full_replace() {
    let mut target = parse_json(
        r#"{"provider": {"omos": {"name": "old", "npm": "old-npm",
            "options": {"apiKey": "old-key", "baseURL": "https://old.example.com", "timeout": 30000},
            "models": {}}}}"#,
    )
    .unwrap();
    let source = payload_with_one_model("OpenAI", "@ai-sdk/openai", "new-key", "https://new.example.com", "m1", "m1-name", None);
    merge_opencode(&mut target, &source).unwrap();
    let opts = at(&target, &["provider", "omos", "options"]).unwrap();
    assert_eq!(str_at(opts, &["apiKey"]).as_deref(), Some("new-key"), "apiKey 整体替换");
    assert_eq!(str_at(opts, &["baseURL"]).as_deref(), Some("https://new.example.com"));
    assert!(opts.get("timeout").is_none(), "options 整体替换，target 中额外 timeout 字段应丢失（预期）");
}

#[test]
fn merge_test_merge_removes_other_providers() {
    let mut target = parse_json(
        r#"{"provider": {
            "anthropic": {"name": "Anthropic", "npm": "@ai-sdk/anthropic", "options": {"apiKey": "anthro-key"}},
            "omos": {"name": "old", "npm": "old-npm", "options": {"apiKey": "k", "baseURL": "u"}, "models": {}}}}"#,
    )
    .unwrap();
    let source = payload_with_one_model("OpenAI", "@ai-sdk/openai", "k", "u", "m1", "m1", None);
    merge_opencode(&mut target, &source).unwrap();
    let providers = at(&target, &["provider"]).unwrap();
    assert!(providers.get("anthropic").is_none(), "anthropic provider 应被删除");
    assert_eq!(str_at(providers, &["omos", "name"]).as_deref(), Some("OpenAI"));
}

#[test]
fn test_merge_preserves_schema() {
    let mut target = parse_json(
        r#"{"$schema": "https://example.com/some-other.schema.json",
            "provider": {"omos": {"name": "old", "npm": "old-npm", "options": {"apiKey": "k", "baseURL": "u"}, "models": {}}}}"#,
    )
    .unwrap();
    let source = payload_with_one_model("OpenAI", "@ai-sdk/openai", "k", "u", "m1", "m1", None);
    merge_opencode(&mut target, &source).unwrap();
    assert_eq!(
        str_at(&target, &["$schema"]).as_deref(),
        Some("https://example.com/some-other.schema.json"),
        "target 顶层 $schema 必须保留"
    );
}

#[test]
fn test_merge_preserves_plugin() {
    let mut target = parse_json(
        r#"{"plugin": ["some-plugin-1", "some-plugin-2"],
            "provider": {"omos": {"name": "old", "npm": "old-npm", "options": {"apiKey": "k", "baseURL": "u"}, "models": {}}}}"#,
    )
    .unwrap();
    let source = payload_with_one_model("OpenAI", "@ai-sdk/openai", "k", "u", "m1", "m1", None);
    merge_opencode(&mut target, &source).unwrap();
    let plugin = match at(&target, &["plugin"]) {
        Some(JsonValue::Array(items)) => items,
        _ => panic!("plugin 应为 array"),
    };
    assert_eq!(plugin.len(), 2);
    assert!(matches!(&plugin[0], JsonValue::Str(s) if s == "some-plugin-1"));
    assert!(matches!(&plugin[1], JsonValue::Str(s) if s == "some-plugin-2"));
}

#[test]
fn test_merge_preserves_permission() {
    let mut target = parse_json(
        r#"{"permission": {"bash": "allow", "edit": "deny"},
            "provider": {"omos": {"name": "old", "npm": "old-npm", "options": {"apiKey": "k", "baseURL": "u"}, "models": {}}}}"#,
    )
    .unwrap();
    let source = payload_with_one_model("OpenAI", "@ai-sdk/openai", "k", "u", "m1", "m1", None);
    merge_opencode(&mut target, &source).unwrap();
    assert_eq!(str_at(&target, &["permission", "bash"]).as_deref(), Some("allow"));
    assert_eq!(str_at(&target, &["permission", "edit"]).as_deref(), Some("deny"));
}

#[test]
fn test_merge_models_full_replacement() {
    let mut target = parse_json(
        r#"{"provider": {"omos": {"name": "old", "npm": "old-npm", "options": {"apiKey": "k", "baseURL": "u"},
            "models": {"m1": {"name": "target-only-model"}, "m2": {"name": "m2-with-extra", "headers": {"X": "y"}}}}}}"#,
    )
    .unwrap();
    let source = payload_with_one_model("OpenAI", "@ai-sdk/openai", "k", "u", "new_m", "source-only-model", Some("g1"));
    merge_opencode(&mut target, &source).unwrap();
    let models = at(&target, &["provider", "omos", "models"]).unwrap();
    assert_eq!(members(&target, &["provider", "omos", "models"]).len(), 1, "应只有 1 个 model（source 的）");
    assert!(models.get("m1").is_none(), "target-only m1 应被移除");
    assert!(models.get("m2").is_none(), "target-only m2 应被移除");
    assert_eq!(str_at(models, &["new_m", "name"]).as_deref(), Some("source-only-model"));
    assert_eq!(str_at(models, &["new_m", "group"]).as_deref(), Some("g1"));
}

#[test]
fn test_merge_identical_no_change() {
    let text = r#"{"$schema": "https://example.com/schema.json", "plugin": ["p1"],
        "provider": {"omos": {"name": "OpenAI", "npm": "@ai-sdk/openai",
            "options": {"apiKey": "key-1", "baseURL": "https://api.example.com"},
            "models": {"m1": {"name": "Model One", "group": "g1"}}}}}"#;
    let mut target = parse_json(text).unwrap();
    let snapshot_before = parse_json(text).unwrap();
    let source = payload_with_one_model("OpenAI", "@ai-sdk/openai", "key-1", "https://api.example.com", "m1", "Model One", Some("g1"));
    merge_opencode(&mut target, &source).unwrap();
    assert_eq!(
        compact(&target),
        compact(&snapshot_before),
        "source 与 target 相同则结果应保持一致"
    );
}

#[test]
fn test_merge_removes_extra_target_models() {
    let mut target = parse_json(
        r#"{"provider": {"omos": {"name": "old", "npm": "old-npm", "options": {"apiKey": "k", "baseURL": "u"},
            "models": {"m1": {"name": "m1-name"}, "m2": {"name": "m2-name"}}}}}"#,
    )
    .unwrap();
    let source = payload_with_one_model("OpenAI", "@ai-sdk/openai", "k", "u", "m1", "m1-updated", None);
    merge_opencode(&mut target, &source).unwrap();
    let models = at(&target, &["provider", "omos", "models"]).unwrap();
    assert_eq!(members(&target, &["provider", "omos", "models"]).len(), 1, "target 多余的 m2 应被移除");
    assert!(models.get("m2").is_none(), "m2 不应出现在 models 中");
    assert_eq!(str_at(models, &["m1", "name"]).as_deref(), Some("m1-updated"), "m1 name 被 source 覆盖");
}

#[test]
fn test_build_oh_my_openagent_basic_shape() {
    let payload = roles_payload("openai", StrMap::new(), &[("coder", "gpt-4o")], &[("web", "sonnet-3")]);
    let v = build_oh_my_openagent(&payload);
    assert_eq!(str_at(&v, &["$schema"]).as_deref(), Some(OH_MY_OPENCODE_SCHEMA));
    assert_eq!(str_at(&v, &["agents", "coder", "model"]).as_deref(), Some("omos/gpt-4o"));
    assert_eq!(str_at(&v, &["categories", "web", "model"]).as_deref(), Some("omos/sonnet-3"));
}

#[test]
fn test_build_oh_my_openagent_preserves_model_id_case() {
    let payload = roles_payload("MiniMax", StrMap::new(), &[("coder", "omos/MiniMax-M3")], &[]);
    let v = build_oh_my_openagent(&payload);
    assert_eq!(str_at(&v, &["agents", "coder", "model"]).as_deref(), Some("omos/MiniMax-M3"), "应保持原大小写，不做转换");
}

#[test]
fn test_build_oh_my_openagent_normalizes_case_via_provider_models() {
    let mut models = StrMap::new();
    models.insert("MiniMax-M3".to_string(), ModelEntry { name: "MiniMax M3".to_string(), group: None, modalities: None });
    models.insert("deepseek-v4-flash".to_string(), ModelEntry { name: "DeepSeek V4 Flash".to_string(), group: None, modalities: None });
    let payload = roles_payload(
        "demo",
        models,
        &[("multimodal-looker", "omos/MiniMax-m3"), ("explore", "omos/DeepSeek-V4-Flash")],
        &[],
    );
    let v = build_oh_my_openagent(&payload);
    assert_eq!(
        str_at(&v, &["agents", "multimodal-looker", "model"]).as_deref(),
        Some("omos/MiniMax-M3"),
        "应归一化为 provider.models 中的精确大小写"
    );
    assert_eq!(str_at(&v, &["agents", "explore", "model"]).as_deref(), Some("omos/deepseek-v4-flash"), "大写应归一化为小写");
}

#[test]
fn test_build_oh_my_openagent_unknown_model_keeps_original() {
    let mut models = StrMap::new();
    models.insert("deepseek-v4-flash".to_string(), ModelEntry { name: "DeepSeek V4 Flash".to_string(), group: None, modalities: None });
    let payload = roles_payload("demo", models, &[("coder", "omos/MiniMax-m3")], &[]);
    let v = build_oh_my_openagent(&payload);
    assert_eq!(str_at(&v, &["agents", "coder", "model"]).as_deref(), Some("omos/MiniMax-m3"), "未知 model 应保持原样（让用户去修）");
}

#[test]
fn test_merge_writes_modalities() {
    let mut target = parse_json(r#"{"provider": {"omos": {"name": "x", "npm": "x", "options": {}, "models": {}}}}"#).unwrap();
    let source = payload_with_modalities("MiniMax-M3", vec!["text", "image"], vec!["text"]);
    merge_opencode(&mut target, &source).unwrap();
    let model = at(&target, &["provider", "omos", "models", "MiniMax-M3"]).unwrap();
    assert_eq!(str_at(model, &["name"]).as_deref(), Some("MiniMax-M3-name"));
    let input = match at(model, &["modalities", "input"]) {
        Some(JsonValue::Array(items)) => items,
        _ => panic!("input array"),
    };
    let output = match at(model, &["modalities", "output"]) {
        Some(JsonValue::Array(items)) => items,
        _ => panic!("output array"),
    };
    assert!(matches!(&input[0], JsonValue::Str(s) if s == "text"));
    assert!(matches!(&input[1], JsonValue::Str(s) if s == "image"));
    assert!(matches!(&output[0], JsonValue::Str(s) if s == "text"));
}

#[test]
fn test_merge_modalities_input_only() {
    let mut target = parse_json(r#"{"provider": {"omos": {"name": "x", "npm": "x", "options": {}, "models": {}}}}"#).unwrap();
    let source = payload_with_modalities("m", vec!["text"], vec![]);
    merge_opencode(&mut target, &source).unwrap();
    let m = at(&target, &["provider", "omos", "models", "m", "modalities"]).unwrap();
    assert!(m.get("input").is_some());
    assert!(m.get("output").is_none(), "output 为空时不应输出空数组");
}

#[test]
fn test_merge_modalities_all_empty_no_field() {
    let mut target = parse_json(r#"{"provider": {"omos": {"name": "x", "npm": "x", "options": {}, "models": {}}}}"#).unwrap();
    let source = payload_with_modalities("m", vec![], vec![]);
    merge_opencode(&mut target, &source).unwrap();
    let model = at(&target, &["provider", "omos", "models", "m"]).unwrap();
    assert!(model.get("modalities").is_none(), "input/output 都为空时不应写入 modalities 字段");
}

#[test]
fn test_merge_modalities_none_no_field() {
    let mut target = parse_json(r#"{"provider": {"omos": {"name": "x", "npm": "x", "options": {}, "models": {}}}}"#).unwrap();
    let source = payload_with_one_model("OpenAI", "@ai-sdk/openai", "k", "u", "m", "m-name", None);
    merge_opencode(&mut target, &source).unwrap();
    let model = at(&target, &["provider", "omos", "models", "m"]).unwrap();
    assert!(
        model.get("modalities").is_none(),
        "modalities 为 None 时(默认行为)不应写入字段,保证旧配置 JSON 完全一致"
    );
}

#[test]
fn merge_into_non_object_starts_empty() {
    let mut target = parse_json("[1, 2]").unwrap();
    let source = payload_with_one_model("OpenAI", "@ai-sdk/openai", "k", "u", "m", "m-name", None);
    merge_opencode(&mut target, &source).unwrap();
    assert_eq!(members(&target, &[]).len(), 1);
    assert_eq!(str_at(&target, &["provider", "omos", "npm"]).as_deref(), Some("@ai-sdk/openai"));
}

#[test]
fn merge_twice_is_merge_once() {
    let mut once = parse_json(r#"{"plugin": ["a"], "provider": {"x": {}}}"#).unwrap();
    let source = payload_with_one_model("OpenAI", "@ai-sdk/openai", "k", "u", "m", "m-name", Some("g"));
    merge_opencode(&mut once, &source).unwrap();
    let mut twice = parse_json(&compact(&once)).unwrap();
    merge_opencode(&mut twice, &source).unwrap();
    assert_eq!(compact(&once), compact(&twice));
}

#[test]
fn build_uses_last_segment_of_reference() {
    let payload = roles_payload("p", StrMap::new(), &[("coder", "openai/org/gpt-4o")], &[]);
    let v = build_oh_my_openagent(&payload);
    assert_eq!(str_at(&v, &["agents", "coder", "model"]).as_deref(), Some("omos/gpt-4o"));
}

fn compact(v: &JsonValue) -> String {
    strip_jsonc_comments(&pretty_json(v).unwrap()).unwrap()
}

#[test]
fn merge_keeps_other_members_of_kept_models() {
    let mut target = parse_json(
        r#"{"provider": {"omos": {"models": {"m1": {"name": "a", "group": "old", "headers": {"X": "y"}, "limit": {"context": 8}}, "m2": {"name": "gone"}}}}}"#,
    )
    .unwrap();
    let source = payload_with_one_model("n", "p", "k", "u", "m1", "b", None);
    merge_opencode(&mut target, &source).unwrap();
    let m1 = at(&target, &["provider", "omos", "models", "m1"]).unwrap();
    assert_eq!(str_at(m1, &["name"]).as_deref(), Some("b"));
    assert_eq!(str_at(m1, &["headers", "X"]).as_deref(), Some("y"));
    assert!(at(m1, &["limit", "context"]).is_some());
    // the payload has no group, so none is written
    assert!(m1.get("group").is_none());
    assert!(at(&target, &["provider", "omos", "models", "m2"]).is_none());
}

#[test]
fn merge_keeps_existing_modalities_without_new_ones() {
    let doc = r#"{"provider": {"omos": {"models": {"m": {"name": "old", "modalities": {"input": ["text", "image"]}, "headers": {"x": "1"}}}}}}"#;
    // the payload's model declares no modalities: the document's stay
    let mut target = parse_json(doc).unwrap();
    let source = payload_with_one_model("OpenAI", "@ai-sdk/openai", "k", "u", "m", "m-name", None);
    merge_opencode(&mut target, &source).unwrap();
    let input = members_list(at(&target, &["provider", "omos", "models", "m", "modalities", "input"]));
    assert_eq!(input, vec!["text", "image"]);
    assert_eq!(str_at(&target, &["provider", "omos", "models", "m", "headers", "x"]).as_deref(), Some("1"));
    assert_eq!(str_at(&target, &["provider", "omos", "models", "m", "name"]).as_deref(), Some("m-name"));

    // empty modalities write nothing, so the document's stay too
    let mut target = parse_json(doc).unwrap();
    merge_opencode(&mut target, &payload_with_modalities("m", vec![], vec![])).unwrap();
    let input = members_list(at(&target, &["provider", "omos", "models", "m", "modalities", "input"]));
    assert_eq!(input, vec!["text", "image"]);

    // declared modalities replace them
    let mut target = parse_json(doc).unwrap();
    merge_opencode(&mut target, &payload_with_modalities("m", vec!["text"], vec!["text"])).unwrap();
    let input = members_list(at(&target, &["provider", "omos", "models", "m", "modalities", "input"]));
    assert_eq!(input, vec!["text"]);
    let output = members_list(at(&target, &["provider", "omos", "models", "m", "modalities", "output"]));
    assert_eq!(output, vec!["text"]);
}

fn members_list(v: Option<&JsonValue>) -> Vec<String> {
    match v {
        Some(JsonValue::Array(items)) => items
            .iter()
            .map(|x| match x {
                JsonValue::Str(s) => s.clone(),
                other => panic!("not a string: {:?}", other),
            })
            .collect(),
        other => panic!("not an array: {:?}", other),
    }
}
