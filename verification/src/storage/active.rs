//! The activation record: which configuration was applied last, and the
//! fingerprints of the documents it wrote.
use vstd::prelude::*;

use crate::pathstr::{file_stem, path_file_stem, path_with_file_name, with_file_name};
use crate::text::{concat_str, copy_string};
use crate::timestamp::Timestamp;

verus! {

/// The fingerprints of the two documents a configuration writes.
#[derive(Debug, Clone, PartialEq, Eq)]
pub struct Fingerprints {
    /// Fingerprint of `opencode.jsonc`.
    pub opencode: String,
    /// Fingerprint of `oh-my-openagent.json`.
    pub omos: String,
}

/// The record of the configuration applied last.
#[derive(Debug, Clone, PartialEq, Eq)]
pub struct ActiveRecord {
    /// The applied configuration.
    pub config_id: String,
    /// When it was applied.
    pub applied_at: Timestamp,
    /// The fingerprints of the documents written.
    pub fingerprints: Fingerprints,
}

impl ActiveRecord {
    /// The record of applying configuration `config_id` at `applied_at`,
    /// having written documents with the given fingerprints.
    pub fn new(config_id: &String, applied_at: Timestamp, opencode_fp: &String, omos_fp: &String) -> (r: ActiveRecord)
        ensures
            r.config_id@ == config_id@,
            r.applied_at == applied_at,
            r.fingerprints.opencode@ == opencode_fp@,
            r.fingerprints.omos@ == omos_fp@,
    {
        ActiveRecord {
            config_id: copy_string(config_id),
            applied_at,
            fingerprints: Fingerprints { opencode: copy_string(opencode_fp), omos: copy_string(omos_fp) },
        }
    }
}

/// The temporary file the record at `path` is written through: its stem
/// with the extension `json.tmp` (so `active.json` goes through
/// `active.json.tmp`); a path without a file name is kept as it is.
/// `win` says whether paths follow Windows rules.
pub open spec fn spec_record_temp_path(path: Seq<char>, win: bool) -> Seq<char> {
    match path_file_stem(path, win) {
        Some(stem) => path_with_file_name(path, stem + ".json.tmp"@, win),
        None => path,
    }
}

/// The temporary file the record at `path` is written through.
pub fn record_temp_path(path: &str, win: bool) -> (r: String)
    ensures
        r@ == spec_record_temp_path(path@, win),
{
    match file_stem(path, win) {
        Some(stem) => {
            let name = concat_str(stem.as_str(), ".json.tmp");
            with_file_name(path, name.as_str(), win)
        },
        None => String::from_str(path),
    }
}

} // verus!
