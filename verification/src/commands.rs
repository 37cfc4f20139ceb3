//! The decisions inside the application's commands: what applying a
//! configuration writes, what an import is labelled, how the activation
//! state is read from the documents.
use vstd::prelude::*;

use crate::config::fingerprint::{fingerprint, spec_fingerprint};
use crate::config::jsonc::{
    is_error, parse_json, parse_jsonc, pretty_json_text, spec_json_parse, spec_json_pretty,
    spec_parse_jsonc, AppErrorView,
};
use crate::config::merge::{build_oh_my_openagent, merge_opencode, merged_opencode, oh_my_openagent_json};
use crate::error::{spec_message, AppError};
use crate::json::{Json, JsonValue};
use crate::storage::active::{ActiveRecord, Fingerprints};
use crate::storage::configs::{opt_str_view, ConfigMeta, ConfigPayload, ConfigProvider};
use crate::storage::detect::{detect_active, ids_of, opt_view, spec_detect, StatusView, ActiveStatus};
use crate::storage::import::{extract_roles, extract_roles_of};
use crate::strmap::StrMap;
use crate::text::concat_str;
use crate::timestamp::{spec_utc_format, Timestamp, LABEL_STAMP_FORMAT};

verus! {

/// What applying a configuration did.
#[derive(Debug)]
pub struct ApplyResult {
    /// The backups made before writing, in the order they were made.
    pub backup_files: Vec<String>,
    /// When the configuration was applied.
    pub applied_at: Timestamp,
    /// Whether `opencode.jsonc` was written.
    pub opencode_updated: bool,
    /// Whether `oh-my-openagent.json` was written.
    pub omos_updated: bool,
}

/// The roles of an oh-my-openagent file, each mapped to its bare model id.
#[derive(Debug)]
pub struct RoleJsonContent {
    pub agents: StrMap<String>,
    pub categories: StrMap<String>,
}

/// What applying a configuration writes: both documents, their texts and
/// their fingerprints.
#[derive(Debug)]
pub struct ApplyPlan {
    /// The new `opencode.jsonc` document.
    pub opencode: JsonValue,
    /// The new `oh-my-openagent.json` document.
    pub omos: JsonValue,
    /// The text written to `opencode.jsonc`.
    pub opencode_text: String,
    /// The text written to `oh-my-openagent.json`.
    pub omos_text: String,
    /// The fingerprints recorded for the two documents.
    pub fingerprints: Fingerprints,
}

/// The document a configuration is merged into: the current
/// `opencode.jsonc` (parsed as JSONC), or an empty object when there is none.
pub open spec fn spec_apply_base(current: Option<Seq<char>>) -> Result<Json, AppErrorView> {
    match current {
        None => Ok(Json::Object(Map::empty())),
        Some(t) => spec_parse_jsonc(t),
    }
}

/// Works out what applying `payload` writes, given the current text of
/// `opencode.jsonc` (`None` when the file does not exist): the provider is
/// merged into the current document, the oh-my-openagent document is built
/// from the payload, and both are printed and fingerprinted.  The only
/// failure is a current document that does not parse.
pub fn plan_apply(payload: &ConfigPayload, current_opencode: Option<&str>) -> (r: Result<
    ApplyPlan,
    AppError,
>)
    ensures
        match (r, spec_apply_base(opt_view(current_opencode))) {
            (Ok(plan), Ok(base)) => {
                &&& plan.opencode@ == merged_opencode(base, payload.provider@)
                &&& plan.omos@ == oh_my_openagent_json(
                    payload.provider.models.seq(),
                    payload.agents@,
                    payload.categories@,
                )
                &&& plan.opencode_text@ == spec_json_pretty(plan.opencode@)
                &&& plan.omos_text@ == spec_json_pretty(plan.omos@)
                &&& plan.fingerprints.opencode@ == spec_fingerprint(plan.opencode@)
                &&& plan.fingerprints.omos@ == spec_fingerprint(plan.omos@)
            },
            (Err(e), Err(ev)) => is_error(e, ev),
            _ => false,
        },
{
    let mut opencode = match current_opencode {
        Some(text) => parse_jsonc(text)?,
        None => {
            let v = JsonValue::Object(Vec::new());
            proof {
                assert(crate::json::members_model(Seq::<(String, JsonValue)>::empty()) =~= Map::<
                    Seq<char>,
                    Json,
                >::empty());
                assert(v@ == Json::Object(Map::<Seq<char>, Json>::empty()));
            }
            v
        },
    };
    let _ = merge_opencode(&mut opencode, payload);
    let omos = build_oh_my_openagent(payload);
    let opencode_text = pretty_json_text(&opencode);
    let omos_text = pretty_json_text(&omos);
    let fingerprints = Fingerprints { opencode: fingerprint(&opencode), omos: fingerprint(&omos) };
    Ok(ApplyPlan { opencode, omos, opencode_text, omos_text, fingerprints })
}

/// The error reported when backing up `document` failed with `e`.
pub fn backup_step_error(document: &str, e: &AppError) -> (r: AppError)
    ensures
        r matches AppError::BackupFailed { reason } && reason@ == "备份 "@ + document@ + " 失败: "@
            + spec_message(*e),
{
    let mut reason = concat_str("备份 ", document);
    reason.append(" 失败: ");
    let m = e.message();
    reason.append(m.as_str());
    AppError::BackupFailed { reason }
}

/// The result of applying a configuration: both documents are written
/// every time.
pub fn apply_result(backup_files: Vec<String>, applied_at: Timestamp) -> (r: ApplyResult)
    ensures
        r.backup_files@ == backup_files@,
        r.applied_at == applied_at,
        r.opencode_updated,
        r.omos_updated,
{
    ApplyResult { backup_files, applied_at, opencode_updated: true, omos_updated: true }
}

/// The label of a configuration imported from opencode at `now`:
/// `Imported-` and the time as `%Y%m%d%H%M%S` (none for a time `chrono`
/// cannot represent).
pub fn import_label(now: Timestamp) -> (r: Option<String>)
    ensures
        match spec_utc_format(now.secs, now.nanos, LABEL_STAMP_FORMAT@) {
            Some(s) => r matches Some(l) && l@ == "Imported-"@ + s,
            None => r is None,
        },
{
    match now.label_stamp() {
        Some(s) => Some(concat_str("Imported-", s.as_str())),
        None => None,
    }
}

/// The payload of a configuration imported from opencode: the label and
/// the provider read, no roles, no source mark.
pub fn imported_payload(label: String, provider: ConfigProvider) -> (r: ConfigPayload)
    ensures
        r.label@ == label@,
        r.provider@ == provider@,
        r.agents@ == Map::<Seq<char>, Seq<char>>::empty(),
        r.categories@ == Map::<Seq<char>, Seq<char>>::empty(),
        r.source is None,
{
    let agents: StrMap<String> = StrMap::new();
    let categories: StrMap<String> = StrMap::new();
    proof {
        assert(agents@ =~= Map::<Seq<char>, Seq<char>>::empty());
        assert(categories@ =~= Map::<Seq<char>, Seq<char>>::empty());
    }
    ConfigPayload { label, provider, agents, categories, source: None }
}

/// Reads the roles of an oh-my-openagent text (strict JSON), each mapped
/// to its bare model id (the part of the model reference after its last `/`).
pub fn read_role_json_text(content: &str) -> (r: Result<RoleJsonContent, AppError>)
    ensures
        match (r, spec_json_parse(content@)) {
            (Ok(c), Ok(doc)) => c.agents@ == extract_roles(doc, "agents"@, Seq::empty())
                && c.categories@ == extract_roles(doc, "categories"@, Seq::empty()),
            (Err(e), Err(msg)) => is_error(e, AppErrorView::InvalidJson(msg)),
            _ => false,
        },
{
    let doc = parse_json(content)?;
    proof {
        reveal_strlit("");
        assert(""@ =~= Seq::<char>::empty());
    }
    let agents = extract_roles_of(&doc, "agents", "");
    let categories = extract_roles_of(&doc, "categories", "");
    Ok(RoleJsonContent { agents, categories })
}

/// The fingerprint of a document as it is now: none when it is missing or
/// does not parse (as JSONC when `jsonc`, else as strict JSON).
pub open spec fn spec_document_fp(text: Option<Seq<char>>, jsonc: bool) -> Option<Seq<char>> {
    match text {
        None => None,
        Some(t) => if jsonc {
            match spec_parse_jsonc(t) {
                Ok(v) => Some(spec_fingerprint(v)),
                Err(_) => None,
            }
        } else {
            match spec_json_parse(t) {
                Ok(v) => Some(spec_fingerprint(v)),
                Err(_) => None,
            }
        },
    }
}

/// The fingerprint of a document given its text (`None` when it is missing).
pub fn document_fingerprint(text: Option<&str>, jsonc: bool) -> (r: Option<String>)
    ensures
        opt_str_view(r) == spec_document_fp(opt_view(text), jsonc),
{
    let t = match text {
        Some(t) => t,
        None => return None,
    };
    if jsonc {
        match parse_jsonc(t) {
            Ok(v) => Some(fingerprint(&v)),
            Err(_) => None,
        }
    } else {
        match parse_json(t) {
            Ok(v) => Some(fingerprint(&v)),
            Err(_) => None,
        }
    }
}

/// The record of the last apply as far as it can be used: none when the
/// record file is missing (`None`) or could not be decoded (`Some(Err(_))`).
pub open spec fn usable_record(record: Option<Result<ActiveRecord, AppError>>) -> Option<ActiveRecord> {
    match record {
        Some(Ok(r)) => Some(r),
        _ => None,
    }
}

/// The activation state, given the known configurations, the outcome of
/// reading the record of the last apply (`None` when there is no record
/// file, `Some(Err(_))` when it could not be decoded, both of which mean
/// `Unknown`) and the current texts of `opencode.jsonc` and of the
/// oh-my-openagent file (`None` for a missing file).
pub fn active_status(
    configs: &Vec<ConfigMeta>,
    record: &Option<Result<ActiveRecord, AppError>>,
    opencode_text: Option<&str>,
    omos_text: Option<&str>,
) -> (r: ActiveStatus)
    ensures
        r@ == spec_detect(
            ids_of(configs@),
            usable_record(*record),
            spec_document_fp(opt_view(opencode_text), true),
            spec_document_fp(opt_view(omos_text), false),
        ),
{
    let ofp = document_fingerprint(opencode_text, true);
    let mfp = document_fingerprint(omos_text, false);
    let o = match &ofp {
        Some(f) => Some(f.as_str()),
        None => None,
    };
    let m = match &mfp {
        Some(f) => Some(f.as_str()),
        None => None,
    };
    let usable = match record {
        Some(Ok(r)) => Some(
            ActiveRecord::new(&r.config_id, r.applied_at, &r.fingerprints.opencode, &r.fingerprints.omos),
        ),
        _ => None,
    };
    detect_active(configs, &usable, o, m)
}

/// A configuration that was just applied is reported active as long as
/// its record is kept, it is still known, and both files hold the texts
/// written, provided those texts parse back to the documents written.
pub proof fn law_applied_config_is_active(
    ids: Seq<Seq<char>>,
    record: ActiveRecord,
    opencode: Json,
    omos: Json,
)
    requires
        ids.contains(record.config_id@),
        record.fingerprints.opencode@ == spec_fingerprint(opencode),
        record.fingerprints.omos@ == spec_fingerprint(omos),
        spec_parse_jsonc(spec_json_pretty(opencode)) == Ok::<Json, AppErrorView>(opencode),
        spec_json_parse(spec_json_pretty(omos)) == Ok::<Json, Seq<char>>(omos),
    ensures
        spec_detect(
            ids,
            Some(record),
            spec_document_fp(Some(spec_json_pretty(opencode)), true),
            spec_document_fp(Some(spec_json_pretty(omos)), false),
        ) == StatusView::Active(record.config_id@),
{
}

} // verus!
