//! Telling whether the applied configuration is still in place.
use vstd::prelude::*;

use crate::storage::active::ActiveRecord;
use crate::storage::configs::ConfigMeta;
use crate::text::{copy_string, str_equal};

verus! {

/// The activation state of the opencode documents.
#[derive(Debug, Clone, PartialEq, Eq)]
pub enum ActiveStatus {
    /// The documents still hold what configuration `config_id` wrote.
    Active { config_id: String },
    /// Configuration `config_id` was applied, but the documents changed since.
    Drifted { config_id: String },
    /// No activation record is known.
    Unknown,
    /// The record refers to a configuration that no longer exists.
    Orphan { reference_id: String },
}

/// The model of an activation state.
pub enum StatusView {
    Active(Seq<char>),
    Drifted(Seq<char>),
    Unknown,
    Orphan(Seq<char>),
}

impl View for ActiveStatus {
    type V = StatusView;

    open spec fn view(&self) -> StatusView {
        match self {
            ActiveStatus::Active { config_id } => StatusView::Active(config_id@),
            ActiveStatus::Drifted { config_id } => StatusView::Drifted(config_id@),
            ActiveStatus::Unknown => StatusView::Unknown,
            ActiveStatus::Orphan { reference_id } => StatusView::Orphan(reference_id@),
        }
    }
}

/// The identifiers of a list of configurations.
pub open spec fn ids_of(configs: Seq<ConfigMeta>) -> Seq<Seq<char>> {
    configs.map_values(|c: ConfigMeta| c.id@)
}

/// A fingerprint, or the empty text for a document that is missing.
pub open spec fn fp_or_empty(fp: Option<Seq<char>>) -> Seq<char> {
    match fp {
        Some(f) => f,
        None => Seq::empty(),
    }
}

/// The activation state: unknown without a record; orphaned when the
/// recorded configuration is not among `ids`; drifted when a current
/// fingerprint (empty for a missing document) differs from the recorded
/// one; active otherwise.
pub open spec fn spec_detect(
    ids: Seq<Seq<char>>,
    record: Option<ActiveRecord>,
    opencode_fp: Option<Seq<char>>,
    omos_fp: Option<Seq<char>>,
) -> StatusView {
    match record {
        None => StatusView::Unknown,
        Some(r) => if !ids.contains(r.config_id@) {
            StatusView::Orphan(r.config_id@)
        } else if r.fingerprints.opencode@ != fp_or_empty(opencode_fp) || r.fingerprints.omos@
            != fp_or_empty(omos_fp) {
            StatusView::Drifted(r.config_id@)
        } else {
            StatusView::Active(r.config_id@)
        },
    }
}

/// The view of an optional string slice.
pub open spec fn opt_view(o: Option<&str>) -> Option<Seq<char>> {
    match o {
        Some(s) => Some(s@),
        None => None,
    }
}

/// Whether `id` is the identifier of one of `configs`.
fn contains_id(configs: &Vec<ConfigMeta>, id: &str) -> (r: bool)
    ensures
        r == ids_of(configs@).contains(id@),
{
    let mut i: usize = 0;
    while i < configs.len()
        invariant
            i <= configs@.len(),
            forall|j: int| 0 <= j < i ==> configs@[j].id@ != id@,
        decreases configs@.len() - i,
    {
        if str_equal(configs[i].id.as_str(), id) {
            proof {
                assert(ids_of(configs@)[i as int] == id@);
            }
            return true;
        }
        i = i + 1;
    }
    proof {
        if ids_of(configs@).contains(id@) {
            let j = choose|j: int| 0 <= j < ids_of(configs@).len() && ids_of(configs@)[j] == id@;
            assert(configs@[j].id@ == id@);
        }
    }
    false
}

/// Decides the activation state from the record of the last apply (if
/// any), the known configurations and the fingerprints of the documents as
/// they are now (`None` for a missing document).
pub fn detect_active(
    configs: &Vec<ConfigMeta>,
    record: &Option<ActiveRecord>,
    opencode_fp: Option<&str>,
    omos_fp: Option<&str>,
) -> (r: ActiveStatus)
    ensures
        r@ == spec_detect(ids_of(configs@), *record, opt_view(opencode_fp), opt_view(omos_fp)),
{
    let record = match record {
        None => return ActiveStatus::Unknown,
        Some(r) => r,
    };
    if !contains_id(configs, record.config_id.as_str()) {
        return ActiveStatus::Orphan { reference_id: copy_string(&record.config_id) };
    }
    let ofp = match opencode_fp {
        Some(f) => f,
        None => "",
    };
    let mfp = match omos_fp {
        Some(f) => f,
        None => "",
    };
    proof {
        reveal_strlit("");
        assert(""@ =~= Seq::<char>::empty());
        assert(ofp@ == fp_or_empty(opt_view(opencode_fp)));
        assert(mfp@ == fp_or_empty(opt_view(omos_fp)));
    }
    if !str_equal(record.fingerprints.opencode.as_str(), ofp) || !str_equal(
        record.fingerprints.omos.as_str(),
        mfp,
    ) {
        return ActiveStatus::Drifted { config_id: copy_string(&record.config_id) };
    }
    ActiveStatus::Active { config_id: copy_string(&record.config_id) }
}

/// The state is active exactly when a record exists, its configuration is
/// known, and both documents carry the recorded fingerprints.
pub proof fn law_active_iff_matching(
    ids: Seq<Seq<char>>,
    record: Option<ActiveRecord>,
    opencode_fp: Option<Seq<char>>,
    omos_fp: Option<Seq<char>>,
)
    ensures
        spec_detect(ids, record, opencode_fp, omos_fp) is Active <==> (record matches Some(r) && ids.contains(
            r.config_id@,
        ) && r.fingerprints.opencode@ == fp_or_empty(opencode_fp) && r.fingerprints.omos@
            == fp_or_empty(omos_fp)),
{
}

/// Each state arises from one situation only: unknown exactly when there is
/// no record; orphaned, naming the recorded configuration, exactly when it
/// is not among `ids`; otherwise the recorded configuration is named, as
/// drifted exactly when a document is missing while a fingerprint was
/// recorded for it, or is present with another fingerprint than the one
/// recorded.
pub proof fn law_detect_cases(
    ids: Seq<Seq<char>>,
    record: Option<ActiveRecord>,
    opencode_fp: Option<Seq<char>>,
    omos_fp: Option<Seq<char>>,
)
    ensures
        (spec_detect(ids, record, opencode_fp, omos_fp) is Unknown) <==> record is None,
        record matches Some(r) ==> {
            let id = r.config_id@;
            let changed = |recorded: Seq<char>, now: Option<Seq<char>>|
                match now {
                    Some(f) => f != recorded,
                    None => recorded.len() > 0,
                };
            &&& !ids.contains(id) ==> spec_detect(ids, record, opencode_fp, omos_fp) == StatusView::Orphan(id)
            &&& ids.contains(id) && (changed(r.fingerprints.opencode@, opencode_fp) || changed(
                r.fingerprints.omos@,
                omos_fp,
            )) ==> spec_detect(ids, record, opencode_fp, omos_fp) == StatusView::Drifted(id)
            &&& ids.contains(id) && !changed(r.fingerprints.opencode@, opencode_fp) && !changed(
                r.fingerprints.omos@,
                omos_fp,
            ) ==> spec_detect(ids, record, opencode_fp, omos_fp) == StatusView::Active(id)
        },
{
    if let Some(r) = record {
        if r.fingerprints.opencode@.len() == 0 {
            assert(r.fingerprints.opencode@ =~= Seq::<char>::empty());
        }
        if r.fingerprints.omos@.len() == 0 {
            assert(r.fingerprints.omos@ =~= Seq::<char>::empty());
        }
    }
}

} // verus!
