//! Backups of the documents a configuration overwrites: where they go,
//! how they are listed and which are pruned.
use vstd::prelude::*;

use crate::config::jsonc::{parse_json, spec_json_parse};
use crate::error::AppError;
use crate::json::JsonValue;
use crate::order::{newest_first, Stamped};
use crate::pathstr::{
    extension, file_name, file_stem, join, path_extension, path_file_name, path_file_stem, path_join,
    path_with_file_name, with_file_name,
};
use crate::text::{concat_str, copy_string};
use crate::timestamp::{ts_before, Timestamp};

verus! {

/// A backup as it is listed.
#[derive(Debug)]
pub struct BackupMeta {
    /// The backup's file name (without its directory).
    pub filename: String,
    /// The path of the file it is a copy of.
    pub original_path: String,
    /// When it was made.
    pub created_at: Timestamp,
    /// Its size in bytes.
    pub size_bytes: u64,
}

impl Stamped for BackupMeta {
    /// Backups are listed by the time they were made.
    open spec fn stamp(&self) -> Timestamp {
        self.created_at
    }

    fn time(&self) -> (r: Timestamp) {
        self.created_at
    }
}

/// The side file of a backup, which records the original path: the
/// backup's file name (`backup` when it has none) followed by
/// `.original_path`, in the same directory.  `win` says whether paths
/// follow Windows rules.
pub open spec fn spec_sidecar_path(p: Seq<char>, win: bool) -> Seq<char> {
    let name = match path_file_name(p, win) {
        Some(n) => n,
        None => "backup"@,
    };
    path_with_file_name(p, name + ".original_path"@, win)
}

/// The side file of the backup at `backup_path`.
pub fn sidecar_path_for(backup_path: &str, win: bool) -> (r: String)
    ensures
        r@ == spec_sidecar_path(backup_path@, win),
{
    let mut name = match file_name(backup_path, win) {
        Some(n) => n,
        None => String::from_str("backup"),
    };
    name.append(".original_path");
    with_file_name(backup_path, name.as_str(), win)
}

/// The file name of a backup of a file with stem `stem` taken at `stamp`.
pub open spec fn spec_backup_name(stem: Seq<char>, stamp: Seq<char>) -> Seq<char> {
    stem + "-"@ + stamp + ".json"@
}

/// Where the backup of `source` taken at `stamp` goes: `{stem}-{stamp}.json`
/// in `dir`.  A source without a file name has no stem and cannot be
/// backed up.
pub fn backup_path_for(source: &str, dir: &str, stamp: &str, win: bool) -> (r: Result<String, AppError>)
    ensures
        match path_file_stem(source@, win) {
            Some(stem) => r matches Ok(p) && p@ == path_join(dir@, spec_backup_name(stem, stamp@), win),
            None => r matches Err(AppError::BackupFailed { reason }) && reason@ == "无法提取文件 stem: "@
                + source@,
        },
{
    let stem = match file_stem(source, win) {
        Some(s) => s,
        None => {
            return Err(AppError::BackupFailed { reason: concat_str("无法提取文件 stem: ", source) });
        },
    };
    let mut name = concat_str(stem.as_str(), "-");
    name.append(stamp);
    name.append(".json");
    Ok(join(dir, name.as_str(), win))
}

/// Whether a directory entry may be a backup: its extension is `json`.
pub fn is_json_file(path: &str, win: bool) -> (r: bool)
    ensures
        r == (path_extension(path@, win) == Some("json"@)),
{
    match extension(path, win) {
        Some(e) => crate::text::str_equal(e.as_str(), "json"),
        None => false,
    }
}

/// The names of the backups to delete so that only the `keep` most recent
/// remain, given the list ordered most recent first: those from position
/// `keep` on.
pub open spec fn pruned_names(sorted: Seq<BackupMeta>, keep: int) -> Seq<Seq<char>> {
    Seq::new(
        if sorted.len() > keep {
            (sorted.len() - keep) as nat
        } else {
            0
        },
        |k: int| sorted[keep + k].filename@,
    )
}

/// The backups to delete so that only the `keep` most recent remain, given
/// the list ordered most recent first: the file names from position `keep` on.
pub fn prune_list(sorted: &Vec<BackupMeta>, keep: usize) -> (r: Vec<String>)
    ensures
        r@.len() == pruned_names(sorted@, keep as int).len(),
        forall|i: int| 0 <= i < r@.len() ==> #[trigger] r@[i]@ == pruned_names(sorted@, keep as int)[i],
{
    let mut out: Vec<String> = Vec::new();
    let mut i = keep;
    while i < sorted.len()
        invariant
            keep <= i,
            i >= sorted@.len() ==> out@.len() == if sorted@.len() > keep {
                sorted@.len() - keep
            } else {
                0
            },
            i < sorted@.len() ==> out@.len() == i - keep,
            forall|j: int| 0 <= j < out@.len() ==> #[trigger] out@[j]@ == sorted@[keep + j].filename@,
        decreases sorted@.len() - i,
    {
        out.push(copy_string(&sorted[i].filename));
        i = i + 1;
    }
    out
}

/// No two backups of the list share a file name, as no two files of a
/// directory do.
pub open spec fn distinct_names(s: Seq<BackupMeta>) -> bool {
    forall|i: int, j: int| 0 <= i < j < s.len() ==> s[i].filename@ != s[j].filename@
}

/// Pruning keeps the most recent: of a list ordered most recent first, a
/// backup is deleted exactly when it is not among the first `keep`, so
/// nothing is deleted when there are no more than `keep`, and every backup
/// that stays is at least as recent as every backup deleted.
pub proof fn law_prune_keeps_most_recent(sorted: Seq<BackupMeta>, keep: int)
    requires
        newest_first(sorted),
        distinct_names(sorted),
        0 <= keep,
    ensures
        forall|i: int|
            0 <= i < sorted.len() ==> (pruned_names(sorted, keep).contains(#[trigger] sorted[i].filename@) <==> i
                >= keep),
        keep >= sorted.len() ==> pruned_names(sorted, keep).len() == 0,
        forall|i: int, j: int|
            0 <= i < keep <= j < sorted.len() ==> !ts_before(sorted[i].created_at, sorted[j].created_at),
{
    let p = pruned_names(sorted, keep);
    assert forall|i: int| 0 <= i < sorted.len() implies (p.contains(#[trigger] sorted[i].filename@) <==> i
        >= keep) by {
        if i >= keep {
            assert(p[i - keep] == sorted[i].filename@);
        } else if p.contains(sorted[i].filename@) {
            let k = choose|k: int| 0 <= k < p.len() && p[k] == sorted[i].filename@;
            assert(sorted[keep + k].filename@ == sorted[i].filename@);
        }
    }
    assert forall|i: int, j: int| 0 <= i < keep <= j < sorted.len() implies !ts_before(
        sorted[i].created_at,
        sorted[j].created_at,
    ) by {
        assert(sorted[i].stamp() == sorted[i].created_at);
        assert(sorted[j].stamp() == sorted[j].created_at);
    }
}

/// The file a backup restores: the path its side file records.  A backup
/// without a side file cannot be restored.
pub fn restore_target(backup_path: &str, recorded: Option<String>) -> (r: Result<String, AppError>)
    ensures
        match recorded {
            Some(p) => r matches Ok(t) && t@ == p@,
            None => r matches Err(AppError::BackupFailed { reason }) && reason@ == "备份缺少原始路径元数据: "@
                + backup_path@,
        },
{
    match recorded {
        Some(p) => Ok(p),
        None => Err(AppError::BackupFailed { reason: concat_str("备份缺少原始路径元数据: ", backup_path) }),
    }
}

/// The JSON value a backup holds; a text that is not JSON is reported as
/// a failed backup, with the parser's message.
pub fn parse_backup_content(content: &str) -> (r: Result<JsonValue, AppError>)
    ensures
        match (r, spec_json_parse(content@)) {
            (Ok(v), Ok(m)) => v@ == m,
            (Err(AppError::BackupFailed { reason }), Err(msg)) => reason@ == "备份内容不是合法 JSON: "@ + msg,
            _ => false,
        },
{
    match parse_json(content) {
        Ok(v) => Ok(v),
        Err(AppError::InvalidJson { path }) => Err(
            AppError::BackupFailed { reason: concat_str("备份内容不是合法 JSON: ", path.as_str()) },
        ),
        Err(e) => Err(e),
    }
}

} // verus!
