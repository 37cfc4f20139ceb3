use oh_my_openagent_switch::error::AppError;
use oh_my_openagent_switch::order::sort_newest_first;
use oh_my_openagent_switch::pathstr::file_name;
use oh_my_openagent_switch::storage::atomic::temp_path_for;
use oh_my_openagent_switch::storage::backup::{
    backup_path_for, is_json_file, parse_backup_content, prune_list, restore_target, sidecar_path_for,
    BackupMeta,
};
use oh_my_openagent_switch::timestamp::Timestamp;

fn now() -> Timestamp {
    let t = chrono::Utc::now();
    Timestamp { secs: t.timestamp(), nanos: t.timestamp_subsec_nanos() }
}

fn meta(name: &str, secs: i64) -> BackupMeta {
    BackupMeta {
        filename: name.to_string(),
        original_path: "/x/opencode.jsonc".to_string(),
        created_at: Timestamp { secs, nanos: 0 },
        size_bytes: 1,
    }
}

#[test]
fn test_backup_timestamp_format() {
    let stamp = now().backup_stamp().unwrap();
    let backup_path = backup_path_for("/tmp/src/opencode.jsonc", "/tmp/backups", &stamp, false).unwrap();
    let filename = file_name(&backup_path, false).unwrap();
    assert!(
        filename.contains("2026-") || filename.contains("2025-") || filename.contains("2024-")
            || filename.contains("2027-") || filename.contains("2028-"),
        "filename should contain a year prefix: {}",
        filename
    );
    let ts_part = filename.trim_start_matches("opencode-").trim_end_matches(".json");
    assert!(ts_part.contains('T'), "timestamp should contain 'T' separator: {}", filename);
    assert!(ts_part.len() >= 19, "timestamp should be at least YYYY-MM-DDTHH-MM-SS long: {}", filename);
}

#[test]
fn backup_stamp_exact() {
    let t = Timestamp { secs: 1_700_000_000, nanos: 123_456_789 };
    assert_eq!(t.backup_stamp().as_deref(), Some("2023-11-14T22-13-20-123"));
    assert_eq!(Timestamp { secs: 0, nanos: 0 }.backup_stamp().as_deref(), Some("1970-01-01T00-00-00-000"));
    assert_eq!(Timestamp { secs: i64::MAX, nanos: 0 }.backup_stamp(), None);
}

#[test]
fn backup_paths() {
    assert_eq!(
        backup_path_for("/home/u/.config/opencode/opencode.jsonc", "/b", "2024-01-02T03-04-05-006", false).unwrap(),
        "/b/opencode-2024-01-02T03-04-05-006.json"
    );
    match backup_path_for("/", "/b", "s", false) {
        Err(AppError::BackupFailed { reason }) => assert_eq!(reason, "无法提取文件 stem: /"),
        other => panic!("unexpected {:?}", other),
    }
    assert_eq!(sidecar_path_for("/b/opencode-x.json", false), "/b/opencode-x.json.original_path");
    assert_eq!(sidecar_path_for("/", false), "/backup.original_path");
    assert_eq!(temp_path_for("/d/data.json", false), "/d/.data.json.tmp");
    assert_eq!(temp_path_for("/", false), "/.atomic.tmp");
}

#[test]
fn backup_listing_rules() {
    assert!(is_json_file("/b/opencode-1.json", false));
    assert!(!is_json_file("/b/opencode-1.json.original_path", false));
    assert!(!is_json_file("/b/.json", false));
    let sorted = sort_newest_first(vec![meta("a", 1), meta("c", 3), meta("b", 2), meta("e", 5), meta("d", 4)]);
    let names: Vec<&str> = sorted.iter().map(|m| m.filename.as_str()).collect();
    assert_eq!(names, vec!["e", "d", "c", "b", "a"]);
    assert_eq!(prune_list(&sorted, 3), vec!["b".to_string(), "a".to_string()]);
    assert!(prune_list(&sorted, 5).is_empty());
    assert!(prune_list(&sorted, 9).is_empty());
    assert_eq!(prune_list(&sorted, 0).len(), 5);
}

#[test]
fn restore_rules() {
    assert_eq!(restore_target("/b/x.json", Some("/orig/opencode.jsonc".to_string())).unwrap(), "/orig/opencode.jsonc");
    match restore_target("/b/x.json", None) {
        Err(AppError::BackupFailed { reason }) => assert_eq!(reason, "备份缺少原始路径元数据: /b/x.json"),
        other => panic!("unexpected {:?}", other),
    }
    assert!(parse_backup_content(r#"{"k":"v1"}"#).is_ok());
    match parse_backup_content("{oops") {
        Err(AppError::BackupFailed { reason }) => assert!(reason.starts_with("备份内容不是合法 JSON: ")),
        other => panic!("unexpected {:?}", other),
    }
}

#[test]
fn test_list_backups_sorted() {
    // three backups of one file, each a millisecond after the one before
    let t1 = Timestamp { secs: 1_700_000_000, nanos: 1_000_000 };
    let t2 = Timestamp { secs: 1_700_000_000, nanos: 2_000_000 };
    let t3 = Timestamp { secs: 1_700_000_000, nanos: 3_000_000 };
    let source = "/src/config.json";
    let mut made = Vec::new();
    for t in [t1, t2, t3] {
        let stamp = t.backup_stamp().unwrap();
        let path = backup_path_for(source, "/b", &stamp, false).unwrap();
        let name = file_name(&path, false).unwrap();
        made.push(BackupMeta { filename: name, original_path: source.to_string(), created_at: t, size_bytes: 1 });
    }
    let b1 = made[0].filename.clone();
    let b3 = made[2].filename.clone();
    // the directory hands them out in no particular order
    let listed = vec![made.remove(1), made.remove(1), made.remove(0)];
    let list = sort_newest_first(listed);
    assert_eq!(list.len(), 3);
    assert_eq!(list[0].filename, b3);
    assert_eq!(list[2].filename, b1);
    for i in 0..list.len() {
        for j in i + 1..list.len() {
            assert!(!list[i].created_at.is_before(&list[j].created_at));
        }
    }
}

#[test]
fn sorting_reverses_creation_order() {
    let created = vec![meta("first", 10), meta("second", 20), meta("third", 30), meta("fourth", 40)];
    let sorted = sort_newest_first(created);
    let names: Vec<&str> = sorted.iter().map(|m| m.filename.as_str()).collect();
    assert_eq!(names, vec!["fourth", "third", "second", "first"]);
}

#[test]
fn sorting_keeps_order_of_equal_times() {
    let sorted = sort_newest_first(vec![meta("x", 5), meta("y", 7), meta("z", 5), meta("w", 7)]);
    let names: Vec<&str> = sorted.iter().map(|m| m.filename.as_str()).collect();
    assert_eq!(names, vec!["y", "w", "x", "z"]);
}

#[test]
fn windows_backup_paths() {
    assert_eq!(
        backup_path_for(r"C:\Users\u\.config\opencode\opencode.jsonc", r"D:\b", "2024-01-02T03-04-05-006", true)
            .unwrap(),
        r"D:\b\opencode-2024-01-02T03-04-05-006.json"
    );
    assert_eq!(sidecar_path_for(r"D:\b\opencode-x.json", true), r"D:\b\opencode-x.json.original_path");
    assert_eq!(temp_path_for(r"C:\d\data.json", true), r"C:\d\.data.json.tmp");
    assert!(is_json_file(r"D:\b\opencode-1.json", true));
}

#[test]
fn test_prune_keeps_recent() {
    // five backups, a millisecond apart, listed in no particular order
    let mut created = Vec::new();
    for i in 0..5u32 {
        let t = Timestamp { secs: 1_700_000_000, nanos: (i + 1) * 1_000_000 };
        let stamp = t.backup_stamp().unwrap();
        let path = backup_path_for("/src/config.json", "/b", &stamp, false).unwrap();
        created.push(BackupMeta {
            filename: file_name(&path, false).unwrap(),
            original_path: "/src/config.json".to_string(),
            created_at: t,
            size_bytes: 1,
        });
    }
    let names: Vec<String> = created.iter().map(|m| m.filename.clone()).collect();
    let listed = vec![created.remove(3), created.remove(0), created.remove(2), created.remove(0), created.remove(0)];
    let sorted = sort_newest_first(listed);
    assert_eq!(sorted.len(), 5);
    let deleted = prune_list(&sorted, 3);
    assert_eq!(deleted.len(), 2);
    let remaining: Vec<String> = sorted.iter().map(|m| m.filename.clone()).filter(|n| !deleted.contains(n)).collect();
    assert_eq!(remaining.len(), 3);
    for name in &names[2..] {
        assert!(remaining.contains(name), "should keep {}", name);
    }
    for name in &names[..2] {
        assert!(deleted.contains(name), "should delete {}", name);
    }
}
