//! Saved configurations: their data model and the rules of their life cycle
//! (creation, update, duplication, listing).
use vstd::prelude::*;

use crate::strmap::StrMap;
use crate::text::{concat_str, copy_string};
use crate::error::{AppError, IoErrorKind};
use crate::order::{
    is_index_permutation, lemma_index_permutation_onto, newest_first, sort_newest_first, stable_reorder, Stamped,
};
use crate::timestamp::Timestamp;

verus! {

/// Input / output modalities a model declares (`text`, `image`, ...).
#[derive(Debug, Clone)]
pub struct Modalities {
    pub input: Vec<String>,
    pub output: Vec<String>,
}

/// The model of `Modalities`.
pub struct ModalitiesView {
    pub input: Seq<Seq<char>>,
    pub output: Seq<Seq<char>>,
}

impl View for Modalities {
    type V = ModalitiesView;

    open spec fn view(&self) -> ModalitiesView {
        ModalitiesView { input: self.input.deep_view(), output: self.output.deep_view() }
    }
}

/// One model of the provider.
#[derive(Debug, Clone)]
pub struct ModelEntry {
    pub name: String,
    pub group: Option<String>,
    pub modalities: Option<Modalities>,
}

/// The model of `ModelEntry`.
pub struct ModelView {
    pub name: Seq<char>,
    pub group: Option<Seq<char>>,
    pub modalities: Option<ModalitiesView>,
}

/// The view of an optional string.
pub open spec fn opt_str_view(o: Option<String>) -> Option<Seq<char>> {
    match o {
        Some(s) => Some(s@),
        None => None,
    }
}

impl View for ModelEntry {
    type V = ModelView;

    open spec fn view(&self) -> ModelView {
        ModelView {
            name: self.name@,
            group: opt_str_view(self.group),
            modalities: match self.modalities {
                Some(m) => Some(m@),
                None => None,
            },
        }
    }
}

/// Connection options of the provider.
#[derive(Debug, Clone)]
pub struct ProviderOptions {
    pub api_key: String,
    pub base_url: String,
}

impl Default for ProviderOptions {
    fn default() -> (r: Self)
        ensures
            r.api_key@ == Seq::<char>::empty(),
            r.base_url@ == Seq::<char>::empty(),
    {
        ProviderOptions { api_key: String::new(), base_url: String::new() }
    }
}

/// The provider block that is written as `provider.omos` of opencode.
#[derive(Debug)]
pub struct ConfigProvider {
    pub name: String,
    pub npm: String,
    pub options: ProviderOptions,
    pub models: StrMap<ModelEntry>,
}

/// The model of `ConfigProvider`.
pub struct ProviderView {
    pub name: Seq<char>,
    pub npm: Seq<char>,
    pub api_key: Seq<char>,
    pub base_url: Seq<char>,
    pub models: Map<Seq<char>, ModelView>,
}

impl View for ConfigProvider {
    type V = ProviderView;

    open spec fn view(&self) -> ProviderView {
        ProviderView {
            name: self.name@,
            npm: self.npm@,
            api_key: self.options.api_key@,
            base_url: self.options.base_url@,
            models: self.models@,
        }
    }
}

impl Default for ConfigProvider {
    fn default() -> (r: Self)
        ensures
            r.name@ == Seq::<char>::empty(),
            r.npm@ == Seq::<char>::empty(),
            r.options.api_key@ == Seq::<char>::empty(),
            r.options.base_url@ == Seq::<char>::empty(),
            r.models.seq().len() == 0,
    {
        ConfigProvider {
            name: String::new(),
            npm: String::new(),
            options: ProviderOptions::default(),
            models: StrMap::new(),
        }
    }
}

/// The content of a configuration.
#[derive(Debug)]
pub struct ConfigPayload {
    pub label: String,
    pub provider: ConfigProvider,
    pub agents: StrMap<String>,
    pub categories: StrMap<String>,
    /// The files an automatic import came from, used to recognise it again.
    pub source: Option<String>,
}

/// The model of `ConfigPayload`.
pub struct PayloadView {
    pub label: Seq<char>,
    pub provider: ProviderView,
    pub agents: Map<Seq<char>, Seq<char>>,
    pub categories: Map<Seq<char>, Seq<char>>,
    pub source: Option<Seq<char>>,
}

impl View for ConfigPayload {
    type V = PayloadView;

    open spec fn view(&self) -> PayloadView {
        PayloadView {
            label: self.label@,
            provider: self.provider@,
            agents: self.agents@,
            categories: self.categories@,
            source: opt_str_view(self.source),
        }
    }
}

/// A saved configuration.
#[derive(Debug)]
pub struct Config {
    pub id: String,
    pub label: String,
    pub created_at: Timestamp,
    pub updated_at: Timestamp,
    pub payload: ConfigPayload,
}

/// The summary of a configuration shown in lists.
#[derive(Debug, Clone)]
pub struct ConfigMeta {
    pub id: String,
    pub label: String,
    pub updated_at: Timestamp,
}

/// The payload of a freshly created configuration: the label and nothing else.
pub fn empty_payload(label: &str) -> (p: ConfigPayload)
    ensures
        p.label@ == label@,
        p.provider.name@ == Seq::<char>::empty(),
        p.provider.npm@ == Seq::<char>::empty(),
        p.provider.options.api_key@ == Seq::<char>::empty(),
        p.provider.options.base_url@ == Seq::<char>::empty(),
        p.provider.models.seq().len() == 0,
        p.agents.seq().len() == 0,
        p.categories.seq().len() == 0,
        p.source is None,
{
    ConfigPayload {
        label: String::from_str(label),
        provider: ConfigProvider::default(),
        agents: StrMap::new(),
        categories: StrMap::new(),
        source: None,
    }
}

/// A new configuration with identifier `id`, created and updated at `now`,
/// holding an empty payload labelled `label`.
pub fn new_config(id: String, label: &str, now: Timestamp) -> (c: Config)
    ensures
        c.id@ == id@,
        c.label@ == label@,
        c.created_at == now,
        c.updated_at == now,
        c.payload.label@ == label@,
        c.payload.provider.name@ == Seq::<char>::empty(),
        c.payload.provider.npm@ == Seq::<char>::empty(),
        c.payload.provider.options.api_key@ == Seq::<char>::empty(),
        c.payload.provider.options.base_url@ == Seq::<char>::empty(),
        c.payload.provider.models.seq().len() == 0,
        c.payload.agents.seq().len() == 0,
        c.payload.categories.seq().len() == 0,
        c.payload.source is None,
{
    Config {
        id,
        label: String::from_str(label),
        created_at: now,
        updated_at: now,
        payload: empty_payload(label),
    }
}

/// `config` with its payload replaced by `payload`: the label follows the
/// payload's label and the update time becomes `now`.
pub fn apply_update(config: Config, payload: ConfigPayload, now: Timestamp) -> (c: Config)
    ensures
        c.id@ == config.id@,
        c.created_at == config.created_at,
        c.updated_at == now,
        c.label@ == payload.label@,
        c.payload@ == payload@,
{
    let label = copy_string(&payload.label);
    Config {
        id: config.id,
        label,
        created_at: config.created_at,
        updated_at: now,
        payload,
    }
}

/// The copy of `source` stored under `new_id`: the label gets the suffix
/// " - Copy", the payload is kept except that its label follows and its
/// `source` is cleared; both times are `now`.
pub fn duplicate(source: Config, new_id: String, now: Timestamp) -> (c: Config)
    ensures
        c.id@ == new_id@,
        c.label@ == source.label@ + " - Copy"@,
        c.created_at == now,
        c.updated_at == now,
        c.payload.label@ == c.label@,
        c.payload.source is None,
        c.payload.provider@ == source.payload.provider@,
        c.payload.agents@ == source.payload.agents@,
        c.payload.categories@ == source.payload.categories@,
{
    let new_label = concat_str(source.label.as_str(), " - Copy");
    let mut payload = source.payload;
    payload.label = copy_string(&new_label);
    payload.source = None;
    Config { id: new_id, label: new_label, created_at: now, updated_at: now, payload }
}

/// The list entry of a configuration.
pub fn meta_of(config: &Config) -> (m: ConfigMeta)
    ensures
        m.id@ == config.id@,
        m.label@ == config.label@,
        m.updated_at == config.updated_at,
{
    ConfigMeta {
        id: copy_string(&config.id),
        label: copy_string(&config.label),
        updated_at: config.updated_at,
    }
}

impl Stamped for ConfigMeta {
    /// A configuration is listed by the time it was last updated.
    open spec fn stamp(&self) -> Timestamp {
        self.updated_at
    }

    fn time(&self) -> (r: Timestamp) {
        self.updated_at
    }
}

/// The error for a configuration file at `path` that could not be read:
/// a missing file means the configuration does not exist.
pub fn read_config_error(kind: IoErrorKind, path: &str, description: &str) -> (r: AppError)
    ensures
        match kind {
            IoErrorKind::NotFound => r matches AppError::ConfigNotFound { name } && name@ == path@,
            _ => r matches AppError::IoError { message } && message@ == description@,
        },
{
    match kind {
        IoErrorKind::NotFound => AppError::ConfigNotFound { name: String::from_str(path) },
        _ => AppError::IoError { message: String::from_str(description) },
    }
}

/// The error for a directory at `dir` that could not be created.
pub fn create_dir_error(kind: IoErrorKind, dir: &str, description: &str) -> (r: AppError)
    ensures
        match kind {
            IoErrorKind::PermissionDenied => r matches AppError::PermissionDenied { path } && path@ == dir@,
            _ => r matches AppError::IoError { message } && message@ == "创建目录失败 "@ + dir@ + ": "@
                + description@,
        },
{
    match kind {
        IoErrorKind::PermissionDenied => AppError::PermissionDenied { path: String::from_str(dir) },
        _ => {
            let mut m = concat_str("创建目录失败 ", dir);
            m.append(": ");
            m.append(description);
            AppError::IoError { message: m }
        },
    }
}

/// `listed` is the list of the configurations `configs`: one entry per
/// configuration (its identifier, label and update time), most recently
/// updated first, entries updated at the same time keeping their order.
pub open spec fn is_listing(configs: Seq<Config>, listed: Seq<ConfigMeta>) -> bool {
    &&& newest_first(listed)
    &&& exists|idx: Seq<int>|
        {
            &&& is_index_permutation(idx, configs.len())
            &&& listed.len() == configs.len()
            &&& forall|k: int|
                0 <= k < listed.len() ==> {
                    &&& #[trigger] listed[k].id@ == configs[idx[k]].id@
                    &&& listed[k].label@ == configs[idx[k]].label@
                    &&& listed[k].updated_at == configs[idx[k]].updated_at
                }
            &&& forall|a: int, b: int|
                0 <= a < b < listed.len() && listed[a].updated_at == listed[b].updated_at ==> idx[a] < idx[b]
        }
}

/// The list of the configurations `configs`.
pub fn list_of(configs: &Vec<Config>) -> (r: Vec<ConfigMeta>)
    ensures
        is_listing(configs@, r@),
{
    let mut metas: Vec<ConfigMeta> = Vec::new();
    let mut i: usize = 0;
    while i < configs.len()
        invariant
            i <= configs@.len(),
            metas@.len() == i,
            forall|k: int|
                0 <= k < i ==> {
                    &&& #[trigger] metas@[k].id@ == configs@[k].id@
                    &&& metas@[k].label@ == configs@[k].label@
                    &&& metas@[k].updated_at == configs@[k].updated_at
                },
        decreases configs@.len() - i,
    {
        metas.push(meta_of(&configs[i]));
        i = i + 1;
    }
    let ghost m = metas@;
    let r = sort_newest_first(metas);
    proof {
        let idx = choose|idx: Seq<int>| stable_reorder(m, r@, idx);
        assert forall|k: int| 0 <= k < r@.len() implies {
            &&& #[trigger] r@[k].id@ == configs@[idx[k]].id@
            &&& r@[k].label@ == configs@[idx[k]].label@
            &&& r@[k].updated_at == configs@[idx[k]].updated_at
        } by {
            assert(r@[k] == m[idx[k]]);
        }
        assert forall|a: int, b: int|
            0 <= a < b < r@.len() && r@[a].updated_at == r@[b].updated_at implies idx[a] < idx[b] by {
            assert(r@[a].stamp() == r@[b].stamp());
        }
    }
    r
}

/// The configurations once the file of `c` is written: it takes the place
/// of the configuration with the same identifier, or is added after the
/// others.
pub open spec fn stored(configs: Seq<Config>, c: Config) -> Seq<Config> {
    if exists|i: int| 0 <= i < configs.len() && configs[i].id@ == c.id@ {
        configs.update(choose|i: int| 0 <= i < configs.len() && configs[i].id@ == c.id@, c)
    } else {
        configs.push(c)
    }
}

/// A configuration written is listed: the list of the configurations once
/// `c` is stored has an entry with its identifier, label and update time,
/// and the identifiers listed are those of the configurations before and
/// that of `c`.
pub proof fn law_stored_config_listed(configs: Seq<Config>, c: Config, listed: Seq<ConfigMeta>)
    requires
        is_listing(stored(configs, c), listed),
    ensures
        exists|k: int|
            0 <= k < listed.len() && #[trigger] listed[k].id@ == c.id@ && listed[k].label@ == c.label@
                && listed[k].updated_at == c.updated_at,
        forall|i: int|
            0 <= i < configs.len() ==> exists|k: int|
                0 <= k < listed.len() && #[trigger] listed[k].id@ == #[trigger] configs[i].id@,
        forall|k: int|
            0 <= k < listed.len() ==> (#[trigger] listed[k].id@ == c.id@ || exists|i: int|
                0 <= i < configs.len() && configs[i].id@ == listed[k].id@),
{
    let after = stored(configs, c);
    let idx = choose|idx: Seq<int>|
        {
            &&& is_index_permutation(idx, after.len())
            &&& listed.len() == after.len()
            &&& forall|k: int|
                0 <= k < listed.len() ==> {
                    &&& #[trigger] listed[k].id@ == after[idx[k]].id@
                    &&& listed[k].label@ == after[idx[k]].label@
                    &&& listed[k].updated_at == after[idx[k]].updated_at
                }
            &&& forall|a: int, b: int|
                0 <= a < b < listed.len() && listed[a].updated_at == listed[b].updated_at ==> idx[a] < idx[b]
        };
    lemma_index_permutation_onto(idx, after.len());
    let replaced = exists|i: int| 0 <= i < configs.len() && configs[i].id@ == c.id@;
    let j = if replaced {
        choose|i: int| 0 <= i < configs.len() && configs[i].id@ == c.id@
    } else {
        configs.len() as int
    };
    // `c` sits at position `j` of `after`; every other position holds the
    // configuration that was there, whose identifier is kept
    assert(after[j] == c);
    assert forall|i: int| 0 <= i < configs.len() implies after[i].id@ == configs[i].id@ by {
        if i != j {
            assert(after[i] == configs[i]);
        }
    }
    assert(idx.contains(j));
    let kj = choose|k: int| 0 <= k < idx.len() && idx[k] == j;
    assert(listed[kj].id@ == c.id@);
    assert forall|i: int| 0 <= i < configs.len() implies exists|k: int|
        0 <= k < listed.len() && #[trigger] listed[k].id@ == #[trigger] configs[i].id@ by {
        assert(idx.contains(i));
        let k = choose|k: int| 0 <= k < idx.len() && idx[k] == i;
        assert(listed[k].id@ == after[i].id@);
    }
    assert forall|k: int| 0 <= k < listed.len() implies (#[trigger] listed[k].id@ == c.id@ || exists|i: int|
        0 <= i < configs.len() && configs[i].id@ == listed[k].id@) by {
        let t = idx[k];
        if t != j {
            assert(0 <= t < configs.len());
            assert(after[t] == configs[t]);
        }
    }
}

/// No two configurations share an identifier, as no two files of the
/// configurations directory do.
pub open spec fn distinct_ids(configs: Seq<Config>) -> bool {
    forall|a: int, b: int| 0 <= a < b < configs.len() ==> configs[a].id@ != configs[b].id@
}

/// What is read back of a configuration written: once `c` is stored, the
/// configuration under its identifier is `c`, every other configuration is
/// still there, identifiers stay distinct, and one configuration is added
/// exactly when none had that identifier before.
pub proof fn law_stored_read_back(configs: Seq<Config>, c: Config)
    requires
        distinct_ids(configs),
    ensures
        ({
            let after = stored(configs, c);
            &&& distinct_ids(after)
            &&& after.contains(c)
            &&& forall|j: int| 0 <= j < after.len() && #[trigger] after[j].id@ == c.id@ ==> after[j] == c
            &&& forall|i: int| 0 <= i < configs.len() && configs[i].id@ != c.id@ ==> after.contains(
                #[trigger] configs[i],
            )
            &&& after.len() == configs.len() + if exists|i: int|
                0 <= i < configs.len() && configs[i].id@ == c.id@ {
                0int
            } else {
                1int
            }
        }),
{
    let after = stored(configs, c);
    let replaced = exists|i: int| 0 <= i < configs.len() && configs[i].id@ == c.id@;
    let j = if replaced {
        choose|i: int| 0 <= i < configs.len() && configs[i].id@ == c.id@
    } else {
        configs.len() as int
    };
    assert(after[j] == c);
    assert forall|i: int| 0 <= i < after.len() && i != j implies after[i] == configs[i] by {}
    assert forall|i: int| 0 <= i < after.len() && i != j implies after[i].id@ != c.id@ by {
        if replaced {
            assert(configs[i].id@ != configs[j].id@);
        }
    }
    assert forall|a: int, b: int| 0 <= a < b < after.len() implies after[a].id@ != after[b].id@ by {
        if a != j && b != j {
            assert(after[a] == configs[a] && after[b] == configs[b]);
        }
    }
    assert forall|i: int| 0 <= i < configs.len() && configs[i].id@ != c.id@ implies after.contains(
        #[trigger] configs[i],
    ) by {
        assert(i != j);
        assert(after[i] == configs[i]);
    }
}

} // verus!
