//! Writing a configuration into the opencode documents.
//!
//! `merge_opencode` puts the payload's provider into an existing
//! `opencode.jsonc` document as `provider.omos`: every other top-level member
//! of the document is kept, every other provider is dropped; in the `omos`
//! block, `name`, `npm` and `options` are replaced as a whole, and `models`
//! holds exactly the payload's models, each written over the block the
//! document held under its key (members other than `name`, `group` and
//! `modalities` are kept).
//!
//! `build_oh_my_openagent` builds the whole `oh-my-openagent.json` document:
//! each agent and category refers to its model as `omos/<model id>`.
use vstd::prelude::*;

use crate::error::AppError;
use crate::json::{
    items_model, json_get, lemma_items_model, lemma_members_push, members_model, members_remove, members_set, model,
    split_member, Json, JsonValue,
};
use crate::storage::configs::{ConfigPayload, ConfigProvider, ModalitiesView, Modalities, ModelEntry, ModelView, ProviderOptions, ProviderView};
use crate::strmap::{distinct_keys, lemma_pairs_map, pairs_map, StrMap};
use crate::text::{concat_str, copy_string, last_segment, last_segment_of, spec_lowercase, str_equal, to_lowercase};

verus! {

/// The `$schema` reference written into `oh-my-openagent.json`.
pub const OH_MY_OPENCODE_SCHEMA: &'static str =
    "https://raw.githubusercontent.com/code-yeongyu/oh-my-openagent/dev/assets/oh-my-opencode.schema.json";

/// The provider key (and model prefix) under which configurations are written.
pub const OMOS_NPM: &'static str = "omos";

/// An array of string values.
pub open spec fn str_array(s: Seq<Seq<char>>) -> Seq<Json> {
    s.map_values(|x: Seq<char>| Json::Str(x))
}

/// The `options` block of the provider.
pub open spec fn options_json(api_key: Seq<char>, base_url: Seq<char>) -> Json {
    Json::Object(
        Map::<Seq<char>, Json>::empty().insert("apiKey"@, Json::Str(api_key)).insert(
            "baseURL"@,
            Json::Str(base_url),
        ),
    )
}

/// The `modalities` block of a model: absent when there is none or when both
/// lists are empty; otherwise only the non-empty lists are written.
pub open spec fn modalities_json(m: Option<ModalitiesView>) -> Option<Json> {
    match m {
        None => None,
        Some(m) => if m.input.len() == 0 && m.output.len() == 0 {
            None
        } else {
            let with_input = if m.input.len() > 0 {
                Map::<Seq<char>, Json>::empty().insert("input"@, Json::Array(str_array(m.input)))
            } else {
                Map::<Seq<char>, Json>::empty()
            };
            let with_output = if m.output.len() > 0 {
                with_input.insert("output"@, Json::Array(str_array(m.output)))
            } else {
                with_input
            };
            Some(Json::Object(with_output))
        },
    }
}

/// The members of a model block already in the document that a merge
/// keeps: all but `name` and `group` (none when there is no such block or
/// it is not an object).
pub open spec fn kept_model_members(old: Option<Json>) -> Map<Seq<char>, Json> {
    match old {
        Some(Json::Object(m)) => m.remove("name"@).remove("group"@),
        _ => Map::empty(),
    }
}

/// The JSON block of one model, written over the block `old` the document
/// held under the same key: the members of `old` other than `name` and
/// `group` are kept; those two come from the model, and so do the
/// `modalities` when the model declares any (otherwise those of `old` stay).
pub open spec fn model_json(old: Option<Json>, m: ModelView) -> Json {
    let with_name = kept_model_members(old).insert("name"@, Json::Str(m.name));
    let with_group = match m.group {
        Some(g) => with_name.insert("group"@, Json::Str(g)),
        None => with_name,
    };
    let with_modalities = match modalities_json(m.modalities) {
        Some(j) => with_group.insert("modalities"@, j),
        None => with_group,
    };
    Json::Object(with_modalities)
}

/// The `models` block: one member per model of the provider, each written
/// over the block `olds` holds under its key (models `olds` holds that the
/// provider lacks are dropped).
pub open spec fn models_json(olds: Map<Seq<char>, Json>, models: Map<Seq<char>, ModelView>) -> Json {
    Json::Object(
        Map::new(
            |k: Seq<char>| models.contains_key(k),
            |k: Seq<char>| model_json(json_get(Json::Object(olds), k), models[k]),
        ),
    )
}

/// The model blocks a provider block holds under `omos.models`.
pub open spec fn omos_models_of(provider: Json) -> Map<Seq<char>, Json> {
    match json_get(provider, "omos"@) {
        Some(o) => match json_get(o, "models"@) {
            Some(Json::Object(m)) => m,
            _ => Map::empty(),
        },
        None => Map::empty(),
    }
}

/// The model blocks an opencode document holds under `provider.omos.models`.
pub open spec fn existing_models(target: Json) -> Map<Seq<char>, Json> {
    match json_get(target, "provider"@) {
        Some(p) => omos_models_of(p),
        None => Map::empty(),
    }
}

/// The `provider.omos` block written for a provider, over the model blocks
/// `olds` the document held.
pub open spec fn omos_block(olds: Map<Seq<char>, Json>, p: ProviderView) -> Json {
    Json::Object(
        Map::<Seq<char>, Json>::empty().insert("name"@, Json::Str(p.name)).insert(
            "npm"@,
            Json::Str(p.npm),
        ).insert("options"@, options_json(p.api_key, p.base_url)).insert(
            "models"@,
            models_json(olds, p.models),
        ),
    )
}

/// The opencode document after writing provider `p` into `target`: the
/// document's members are kept, except `provider`, which then holds the
/// `omos` block alone, its models written over the model blocks the
/// document held.  A target that is not an object starts empty.
pub open spec fn merged_opencode(target: Json, p: ProviderView) -> Json {
    let root = match target {
        Json::Object(m) => m,
        _ => Map::empty(),
    };
    Json::Object(
        root.insert(
            "provider"@,
            Json::Object(Map::<Seq<char>, Json>::empty().insert("omos"@, omos_block(existing_models(target), p))),
        ),
    )
}

/// The model id a reference names: the part after its last `/`.
pub open spec fn model_id_of(reference: Seq<char>) -> Seq<char> {
    last_segment(reference)
}

/// The key of the last model whose lower-case form equals the lower-case
/// form of `id`.
pub open spec fn case_match(models: Seq<(String, ModelEntry)>, id: Seq<char>) -> Option<Seq<char>>
    decreases models.len(),
{
    if models.len() == 0 {
        None
    } else if spec_lowercase(models.last().0@) == spec_lowercase(id) {
        Some(models.last().0@)
    } else {
        case_match(models.drop_last(), id)
    }
}

/// The `omos/...` reference written for a role: the model id of `reference`
/// with the spelling of a provider model that matches it ignoring case, or
/// as given when no provider model matches.
pub open spec fn omos_ref(models: Seq<(String, ModelEntry)>, reference: Seq<char>) -> Seq<char> {
    let id = model_id_of(reference);
    let resolved = match case_match(models, id) {
        Some(k) => k,
        None => id,
    };
    "omos/"@ + resolved
}

/// The block written for one role.
pub open spec fn role_json(models: Seq<(String, ModelEntry)>, reference: Seq<char>) -> Json {
    Json::Object(Map::<Seq<char>, Json>::empty().insert("model"@, Json::Str(omos_ref(models, reference))))
}

/// The block listing the roles (agents or categories).
pub open spec fn roles_json(models: Seq<(String, ModelEntry)>, roles: Map<Seq<char>, Seq<char>>) -> Json {
    Json::Object(roles.map_values(|r: Seq<char>| role_json(models, r)))
}

/// The whole `oh-my-openagent.json` document for a payload.
pub open spec fn oh_my_openagent_json(
    models: Seq<(String, ModelEntry)>,
    agents: Map<Seq<char>, Seq<char>>,
    categories: Map<Seq<char>, Seq<char>>,
) -> Json {
    Json::Object(
        Map::<Seq<char>, Json>::empty().insert("$schema"@, Json::Str(OH_MY_OPENCODE_SCHEMA@)).insert(
            "agents"@,
            roles_json(models, agents),
        ).insert("categories"@, roles_json(models, categories)),
    )
}

/// A two-member object.
proof fn lemma_two_members(k1: String, v1: JsonValue, k2: String, v2: JsonValue)
    ensures
        members_model(seq![(k1, v1), (k2, v2)]) == Map::<Seq<char>, Json>::empty().insert(k1@, model(v1)).insert(
            k2@,
            model(v2),
        ),
{
    let e = Seq::<(String, JsonValue)>::empty();
    lemma_members_push(e, k1, v1);
    lemma_members_push(e.push((k1, v1)), k2, v2);
    assert(e.push((k1, v1)).push((k2, v2)) =~= seq![(k1, v1), (k2, v2)]);
}

/// An object with one member.
fn single_member(k: String, v: JsonValue) -> (r: JsonValue)
    ensures
        r@ == Json::Object(Map::<Seq<char>, Json>::empty().insert(k@, v@)),
{
    let mut members: Vec<(String, JsonValue)> = Vec::new();
    proof {
        lemma_members_push(members@, k, v);
        assert(members_model(members@) =~= Map::<Seq<char>, Json>::empty());
    }
    members.push((k, v));
    JsonValue::Object(members)
}

/// The JSON `options` block of the provider.
fn build_options_value(opts: &ProviderOptions) -> (r: JsonValue)
    ensures
        r@ == options_json(opts.api_key@, opts.base_url@),
{
    let k1 = String::from_str("apiKey");
    let v1 = JsonValue::Str(copy_string(&opts.api_key));
    let k2 = String::from_str("baseURL");
    let v2 = JsonValue::Str(copy_string(&opts.base_url));
    proof {
        lemma_two_members(k1, v1, k2, v2);
    }
    let members = vec![(k1, v1), (k2, v2)];
    JsonValue::Object(members)
}

/// An array of string values.
fn build_str_array(items: &Vec<String>) -> (r: Vec<JsonValue>)
    ensures
        items_model(r@) == str_array(items.deep_view()),
{
    let mut out: Vec<JsonValue> = Vec::new();
    let mut i: usize = 0;
    while i < items.len()
        invariant
            i <= items@.len(),
            out@.len() == i,
            forall|j: int| 0 <= j < i ==> model(#[trigger] out@[j]) == Json::Str(items@[j]@),
        decreases items@.len() - i,
    {
        out.push(JsonValue::Str(copy_string(&items[i])));
        i = i + 1;
    }
    proof {
        lemma_items_model(out@);
        assert(items.deep_view().len() == items@.len());
        assert forall|j: int| 0 <= j < items@.len() implies items_model(out@)[j] == str_array(
            items.deep_view(),
        )[j] by {
            assert(items.deep_view()[j] == items@[j]@);
            assert(model(out@[j]) == Json::Str(items@[j]@));
            assert(str_array(items.deep_view())[j] == Json::Str(items.deep_view()[j]));
        }
        assert(items_model(out@) =~= str_array(items.deep_view()));
    }
    out
}

/// The JSON `modalities` block of a model, if one is to be written.
fn build_modalities_value(m: &Option<Modalities>) -> (r: Option<JsonValue>)
    ensures
        match r {
            Some(v) => modalities_json(
                match m {
                    Some(x) => Some(x@),
                    None => None,
                },
            ) == Some(model(v)),
            None => modalities_json(
                match m {
                    Some(x) => Some(x@),
                    None => None,
                },
            ) is None,
        },
{
    let m = match m {
        Some(m) => m,
        None => return None,
    };
    if m.input.len() == 0 && m.output.len() == 0 {
        return None;
    }
    let mut members: Vec<(String, JsonValue)> = Vec::new();
    if m.input.len() > 0 {
        let arr = JsonValue::Array(build_str_array(&m.input));
        let k = String::from_str("input");
        proof {
            lemma_members_push(members@, k, arr);
        }
        members.push((k, arr));
    }
    if m.output.len() > 0 {
        let arr = JsonValue::Array(build_str_array(&m.output));
        let k = String::from_str("output");
        proof {
            lemma_members_push(members@, k, arr);
        }
        members.push((k, arr));
    }
    proof {
        assert(members_model(members@) =~= match modalities_json(Some(m@)) {
            Some(Json::Object(o)) => o,
            _ => Map::empty(),
        });
    }
    Some(JsonValue::Object(members))
}

/// The JSON block of one model, written over the block `old` the document
/// held under its key.
fn build_model_value(old: Option<JsonValue>, entry: &ModelEntry) -> (r: JsonValue)
    ensures
        r@ == model_json(
            match old {
                Some(v) => Some(v@),
                None => None,
            },
            entry@,
        ),
{
    let ghost old_model = match old {
        Some(ref v) => Some(v@),
        None => None,
    };
    let mut members: Vec<(String, JsonValue)> = match old {
        Some(JsonValue::Object(m)) => m,
        _ => Vec::new(),
    };
    proof {
        assert(members_model(members@).remove("name"@).remove("group"@)
            =~= kept_model_members(old_model)) by {
            if !(old_model matches Some(Json::Object(_))) {
                assert(members_model(members@) =~= Map::<Seq<char>, Json>::empty());
            }
        }
    }
    members_remove(&mut members, "name");
    members_remove(&mut members, "group");
    members_set(&mut members, String::from_str("name"), JsonValue::Str(copy_string(&entry.name)));
    match &entry.group {
        Some(g) => {
            members_set(&mut members, String::from_str("group"), JsonValue::Str(copy_string(g)));
        },
        None => {},
    }
    match build_modalities_value(&entry.modalities) {
        Some(mv) => {
            members_set(&mut members, String::from_str("modalities"), mv);
        },
        None => {},
    }
    proof {
        let expected = match model_json(old_model, entry@) {
            Json::Object(o) => o,
            _ => Map::empty(),
        };
        assert(members_model(members@) =~= expected);
    }
    JsonValue::Object(members)
}

/// The JSON `models` block of a provider, written over the model blocks
/// `olds` the document held.
fn build_models_value(olds: Vec<(String, JsonValue)>, models: &StrMap<ModelEntry>) -> (r: JsonValue)
    ensures
        r@ == models_json(members_model(olds@), models@),
{
    let entries = models.entries();
    let ghost o = members_model(olds@);
    let mut rest = olds;
    let mut members: Vec<(String, JsonValue)> = Vec::new();
    let mut i: usize = 0;
    proof {
        assert(entries@.take(0) =~= Seq::<(String, ModelEntry)>::empty());
        assert(members_model(members@) =~= Map::new(
            |k: Seq<char>| pairs_map(entries@.take(0)).contains_key(k),
            |k: Seq<char>| model_json(json_get(Json::Object(o), k), pairs_map(entries@.take(0))[k]),
        ));
    }
    while i < entries.len()
        invariant
            i <= entries@.len(),
            distinct_keys(entries@),
            members_model(members@) =~= Map::new(
                |k: Seq<char>| pairs_map(entries@.take(i as int)).contains_key(k),
                |k: Seq<char>| model_json(json_get(Json::Object(o), k), pairs_map(entries@.take(i as int))[k]),
            ),
            forall|k: Seq<char>|
                !pairs_map(entries@.take(i as int)).contains_key(k) ==> json_get(
                    Json::Object(members_model(rest@)),
                    k,
                ) == json_get(Json::Object(o), k),
        decreases entries@.len() - i,
    {
        let ghost t = entries@.take(i as int);
        let ghost key = entries@[i as int].0@;
        proof {
            assert(distinct_keys(t)) by {
                assert forall|a: int, b: int| 0 <= a < b < t.len() implies t[a].0@ != t[b].0@ by {
                    assert(t[a] == entries@[a] && t[b] == entries@[b]);
                }
            }
            lemma_pairs_map(t);
            if pairs_map(t).contains_key(key) {
                let j = choose|j: int| 0 <= j < t.len() && t[j].0@ == key;
                assert(t[j] == entries@[j]);
            }
            assert(entries@.take(i + 1).drop_last() =~= t);
            assert(entries@.take(i + 1).last() == entries@[i as int]);
        }
        let (r2, old) = split_member(rest, entries[i].0.as_str());
        rest = r2;
        let k = copy_string(&entries[i].0);
        let v = build_model_value(old, &entries[i].1);
        proof {
            lemma_members_push(members@, k, v);
        }
        members.push((k, v));
        i = i + 1;
    }
    proof {
        assert(entries@.take(entries@.len() as int) =~= entries@);
    }
    JsonValue::Object(members)
}

/// The model blocks a provider block holds under `omos.models`.
fn omos_models_in(provider: Option<JsonValue>) -> (r: Vec<(String, JsonValue)>)
    ensures
        members_model(r@) == match provider {
            Some(p) => omos_models_of(p@),
            None => Map::<Seq<char>, Json>::empty(),
        },
{
    let empty: Vec<(String, JsonValue)> = Vec::new();
    proof {
        assert(members_model(empty@) =~= Map::<Seq<char>, Json>::empty());
    }
    match provider {
        Some(JsonValue::Object(pm)) => {
            let (_, omos) = split_member(pm, "omos");
            match omos {
                Some(JsonValue::Object(om)) => {
                    let (_, models) = split_member(om, "models");
                    match models {
                        Some(JsonValue::Object(mm)) => mm,
                        _ => empty,
                    }
                },
                _ => empty,
            }
        },
        _ => empty,
    }
}

/// The `provider.omos` block for a provider, over the model blocks `olds`.
fn build_omos_block(olds: Vec<(String, JsonValue)>, p: &ConfigProvider) -> (r: JsonValue)
    ensures
        r@ == omos_block(members_model(olds@), p@),
{
    let mut members: Vec<(String, JsonValue)> = Vec::new();
    let k = String::from_str("name");
    let v = JsonValue::Str(copy_string(&p.name));
    proof {
        lemma_members_push(members@, k, v);
    }
    members.push((k, v));
    let k = String::from_str("npm");
    let v = JsonValue::Str(copy_string(&p.npm));
    proof {
        lemma_members_push(members@, k, v);
    }
    members.push((k, v));
    let k = String::from_str("options");
    let v = build_options_value(&p.options);
    proof {
        lemma_members_push(members@, k, v);
    }
    members.push((k, v));
    let k = String::from_str("models");
    let v = build_models_value(olds, &p.models);
    proof {
        lemma_members_push(members@, k, v);
    }
    members.push((k, v));
    proof {
        let expected = match omos_block(members_model(olds@), p@) {
            Json::Object(o) => o,
            _ => Map::empty(),
        };
        assert(members_model(members@) =~= expected);
    }
    JsonValue::Object(members)
}

/// Writes the payload's provider into the opencode document `target`.
///
/// The result keeps every top-level member of the document except
/// `provider`, which afterwards holds the `omos` block alone: other
/// providers are dropped; in the `omos` block, `name`, `npm` and `options`
/// are replaced as a whole and `models` holds exactly the payload's models,
/// each written over the block the document held under the same key (its
/// members other than `name`, `group` and `modalities`, such as `headers`
/// or `limit`, are kept).  A document that is not an object is replaced by
/// an object first.  This never fails.
pub fn merge_opencode(target: &mut JsonValue, source: &ConfigPayload) -> (r: Result<(), AppError>)
    ensures
        r is Ok,
        final(target)@ == merged_opencode(old(target)@, source.provider@),
{
    let mut old_target = JsonValue::Null;
    std::mem::swap(&mut old_target, target);
    let ghost old_model = old_target@;
    let root = match old_target {
        JsonValue::Object(members) => members,
        _ => Vec::new(),
    };
    proof {
        assert(members_model(root@) =~= match old_model {
            Json::Object(m) => m,
            _ => Map::empty(),
        });
    }
    let (mut root, old_provider) = split_member(root, "provider");
    let olds = omos_models_in(old_provider);
    let block = build_omos_block(olds, &source.provider);
    let provider = single_member(String::from_str("omos"), block);
    members_set(&mut root, String::from_str("provider"), provider);
    proof {
        let m0 = match old_model {
            Json::Object(m) => m,
            _ => Map::empty(),
        };
        assert(m0.remove("provider"@).insert("provider"@, provider@) =~= m0.insert("provider"@, provider@));
    }
    *target = JsonValue::Object(root);
    Ok(())
}

/// The spelling of the last provider model whose lower-case form equals the
/// lower-case form of `id`.
fn resolve_case(models: &Vec<(String, ModelEntry)>, id: &str) -> (r: Option<String>)
    ensures
        match r {
            Some(k) => case_match(models@, id@) == Some(k@),
            None => case_match(models@, id@) is None,
        },
{
    let wanted = to_lowercase(id);
    let mut i = models.len();
    proof {
        assert(models@.take(i as int) =~= models@);
    }
    while i > 0
        invariant
            i <= models@.len(),
            wanted@ == spec_lowercase(id@),
            case_match(models@, id@) == case_match(models@.take(i as int), id@),
        decreases i,
    {
        let lowered = to_lowercase(models[i - 1].0.as_str());
        proof {
            assert(models@.take(i as int).drop_last() =~= models@.take(i - 1));
            assert(models@.take(i as int).last() == models@[i - 1]);
        }
        if str_equal(lowered.as_str(), wanted.as_str()) {
            return Some(copy_string(&models[i - 1].0));
        }
        i = i - 1;
    }
    None
}

/// The `omos/...` reference for a role's model reference.
fn build_omos_ref(models: &Vec<(String, ModelEntry)>, reference: &str) -> (r: String)
    ensures
        r@ == omos_ref(models@, reference@),
{
    let id = last_segment_of(reference);
    let resolved = match resolve_case(models, id.as_str()) {
        Some(k) => k,
        None => id,
    };
    concat_str("omos/", resolved.as_str())
}

/// The block listing roles, each referring to its model.
fn build_roles_value(models: &Vec<(String, ModelEntry)>, roles: &StrMap<String>) -> (r: JsonValue)
    ensures
        r@ == roles_json(models@, roles@),
{
    let entries = roles.entries();
    let mut members: Vec<(String, JsonValue)> = Vec::new();
    let mut i: usize = 0;
    proof {
        assert(entries@.take(0) =~= Seq::<(String, String)>::empty());
        assert(members_model(members@) =~= pairs_map(entries@.take(0)).map_values(
            |r: Seq<char>| role_json(models@, r),
        ));
    }
    while i < entries.len()
        invariant
            i <= entries@.len(),
            members_model(members@) =~= pairs_map(entries@.take(i as int)).map_values(
                |r: Seq<char>| role_json(models@, r),
            ),
        decreases entries@.len() - i,
    {
        let k = copy_string(&entries[i].0);
        let model_ref = build_omos_ref(models, entries[i].1.as_str());
        let v = single_member(String::from_str("model"), JsonValue::Str(model_ref));
        proof {
            lemma_members_push(members@, k, v);
            assert(entries@.take(i + 1).drop_last() =~= entries@.take(i as int));
            assert(entries@.take(i + 1).last() == entries@[i as int]);
        }
        members.push((k, v));
        i = i + 1;
    }
    proof {
        assert(entries@.take(entries@.len() as int) =~= entries@);
    }
    JsonValue::Object(members)
}

/// Builds the whole `oh-my-openagent.json` document for a payload: the
/// `$schema` reference, and for every agent and category a block
/// `{"model": "omos/<model id>"}`.  The model id is the part of the role's
/// reference after its last `/`; when a provider model matches it ignoring
/// case, that model's spelling is used.
pub fn build_oh_my_openagent(payload: &ConfigPayload) -> (r: JsonValue)
    ensures
        r@ == oh_my_openagent_json(payload.provider.models.seq(), payload.agents@, payload.categories@),
{
    let models = payload.provider.models.entries();
    let k1 = String::from_str("$schema");
    let v1 = JsonValue::Str(String::from_str(OH_MY_OPENCODE_SCHEMA));
    let k2 = String::from_str("agents");
    let v2 = build_roles_value(models, &payload.agents);
    let k3 = String::from_str("categories");
    let v3 = build_roles_value(models, &payload.categories);
    let mut members: Vec<(String, JsonValue)> = Vec::new();
    proof {
        lemma_members_push(members@, k1, v1);
    }
    members.push((k1, v1));
    proof {
        lemma_members_push(members@, k2, v2);
    }
    members.push((k2, v2));
    proof {
        lemma_members_push(members@, k3, v3);
    }
    members.push((k3, v3));
    proof {
        let expected = match oh_my_openagent_json(
            payload.provider.models.seq(),
            payload.agents@,
            payload.categories@,
        ) {
            Json::Object(o) => o,
            _ => Map::empty(),
        };
        assert(members_model(members@) =~= expected);
    }
    JsonValue::Object(members)
}

/// Writing a provider into an opencode document keeps every top-level
/// member of the document other than `provider` unchanged.
pub proof fn law_merge_keeps_other_members(target: Json, p: ProviderView, key: Seq<char>)
    requires
        target is Object,
        key != "provider"@,
    ensures
        json_get(merged_opencode(target, p), key) == json_get(target, key),
{
}

/// After writing a provider, `provider` holds the `omos` block alone: every
/// other provider is dropped.
pub proof fn law_merge_provider_only_omos(target: Json, p: ProviderView)
    ensures
        json_get(merged_opencode(target, p), "provider"@) == Some(
            Json::Object(
                Map::<Seq<char>, Json>::empty().insert("omos"@, omos_block(existing_models(target), p)),
            ),
        ),
{
}

/// Writing the `omos` block keeps, of a model already in the document,
/// every member other than `name`, `group` and `modalities`, and its
/// `modalities` too when the payload's model declares none; `name` comes
/// from the payload.
pub proof fn law_merge_keeps_model_members(target: Json, p: ProviderView, model: Seq<char>, key: Seq<char>)
    requires
        p.models.contains_key(model),
        existing_models(target).contains_key(model),
        existing_models(target)[model] is Object,
        key != "name"@,
        key != "group"@,
        key != "modalities"@,
    ensures
        json_get(existing_models(merged_opencode(target, p))[model], key) == json_get(
            existing_models(target)[model],
            key,
        ),
        json_get(existing_models(merged_opencode(target, p))[model], "name"@) == Some(
            Json::Str(p.models[model].name),
        ),
        modalities_json(p.models[model].modalities) is None ==> json_get(
            existing_models(merged_opencode(target, p))[model],
            "modalities"@,
        ) == json_get(existing_models(target)[model], "modalities"@),
{
    reveal_strlit("name");
    reveal_strlit("group");
    reveal_strlit("modalities");
    assert("name"@.len() == 4 && "group"@.len() == 5 && "modalities"@.len() == 10);
    lemma_merged_models(target, p);
}

/// The model blocks of a merged document are the payload's models written
/// over the blocks the document held.
proof fn lemma_merged_models(target: Json, p: ProviderView)
    ensures
        existing_models(merged_opencode(target, p)) == models_json(existing_models(target), p.models)->Object_0,
{
    reveal_strlit("name");
    reveal_strlit("npm");
    reveal_strlit("options");
    reveal_strlit("models");
    reveal_strlit("omos");
    reveal_strlit("provider");
    assert("name"@.len() == 4 && "npm"@.len() == 3 && "options"@.len() == 7 && "models"@.len() == 6);
    let block = omos_block(existing_models(target), p);
    assert(json_get(block, "models"@) == Some(models_json(existing_models(target), p.models)));
}

/// Writing a model twice over a block is writing it once.
proof fn lemma_model_json_twice(old: Option<Json>, m: ModelView)
    ensures
        model_json(Some(model_json(old, m)), m) == model_json(old, m),
{
    reveal_strlit("name");
    reveal_strlit("group");
    reveal_strlit("modalities");
    assert("name"@.len() == 4 && "group"@.len() == 5 && "modalities"@.len() == 10);
    let once = model_json(old, m)->Object_0;
    let twice = model_json(Some(model_json(old, m)), m)->Object_0;
    assert(twice =~= once);
}

/// Writing the same provider twice gives the same document as writing it
/// once.
pub proof fn law_merge_idempotent(target: Json, p: ProviderView)
    ensures
        merged_opencode(merged_opencode(target, p), p) == merged_opencode(target, p),
{
    let once = merged_opencode(target, p);
    lemma_merged_models(target, p);
    let olds = existing_models(target);
    let m1 = existing_models(once);
    assert(models_json(m1, p.models) =~~= models_json(olds, p.models)) by {
        assert forall|k: Seq<char>| p.models.contains_key(k) implies model_json(
            json_get(Json::Object(m1), k),
            p.models[k],
        ) == model_json(json_get(Json::Object(olds), k), p.models[k]) by {
            lemma_model_json_twice(json_get(Json::Object(olds), k), p.models[k]);
        }
        assert(models_json(m1, p.models)->Object_0 =~= models_json(olds, p.models)->Object_0);
    }
    assert(omos_block(m1, p) == omos_block(olds, p));
    let root = match target {
        Json::Object(m) => m,
        _ => Map::empty(),
    };
    let provider = Json::Object(Map::<Seq<char>, Json>::empty().insert("omos"@, omos_block(olds, p)));
    assert(root.insert("provider"@, provider).insert("provider"@, provider) =~= root.insert(
        "provider"@,
        provider,
    ));
}

/// A document that already is the result of writing the provider is left
/// exactly as it is.
pub proof fn law_merge_fixpoint(target: Json, before: Json, p: ProviderView)
    requires
        target == merged_opencode(before, p),
    ensures
        merged_opencode(target, p) == target,
{
    law_merge_idempotent(before, p);
}

} // verus!
