//! Reading configurations back out of the opencode documents and out of
//! files written by hand.
use vstd::prelude::*;

use crate::error::AppError;
use crate::config::jsonc::{is_error, parse_json, parse_jsonc, spec_json_parse, spec_parse_jsonc, AppErrorView};
use crate::config::merge::{
    case_match, existing_models, merged_opencode, modalities_json, model_id_of, model_json, oh_my_openagent_json, omos_block,
    omos_ref, role_json, roles_json, str_array,
};
use crate::json::{
    items_model, json_as_str, json_get, last_index_of_key, lemma_items_model, lemma_members_lookup,
    lemma_members_push, members_get, members_model, model, Json, JsonValue,
};
use crate::pathstr::{join, path_join};
use crate::storage::configs::{
    distinct_ids, opt_str_view, stored, Config, ConfigPayload, ConfigProvider, Modalities, ModalitiesView, ModelEntry, ModelView,
    ProviderOptions, ProviderView,
};
use crate::strmap::StrMap;
use crate::timestamp::Timestamp;
use crate::text::{
    concat_str, copy_string, last_segment, last_segment_of, lemma_last_segment, lemma_seq_lt_total, spec_lowercase, lemma_seq_lt_transitive,
    seq_lt, str_equal, str_less,
};

verus! {

/// `k` is the smallest key of `m` in code-point order.
pub open spec fn is_min_key(m: Map<Seq<char>, Json>, k: Seq<char>) -> bool {
    m.contains_key(k) && forall|k2: Seq<char>| #[trigger] m.contains_key(k2) ==> k2 == k || seq_lt(k, k2)
}

/// The member of `m` under its smallest key: the first member a JSON map
/// ordered by key yields.
pub open spec fn first_member(m: Map<Seq<char>, Json>) -> Option<Json> {
    if exists|k: Seq<char>| is_min_key(m, k) {
        Some(m[choose|k: Seq<char>| is_min_key(m, k)])
    } else {
        None
    }
}

/// The characters of `j[key]` when it is a string, and nothing otherwise.
pub open spec fn str_member(j: Json, key: Seq<char>) -> Seq<char> {
    match json_get(j, key) {
        Some(Json::Str(s)) => s,
        _ => Seq::empty(),
    }
}

/// The strings among a sequence of values, in order.
pub open spec fn strings_in(s: Seq<Json>) -> Seq<Seq<char>>
    decreases s.len(),
{
    if s.len() == 0 {
        Seq::empty()
    } else {
        match s.last() {
            Json::Str(x) => strings_in(s.drop_last()).push(x),
            _ => strings_in(s.drop_last()),
        }
    }
}

/// The strings of the array `j[key]` (none when it is missing or not an array).
pub open spec fn string_list(j: Json, key: Seq<char>) -> Seq<Seq<char>> {
    match json_get(j, key) {
        Some(Json::Array(items)) => strings_in(items),
        _ => Seq::empty(),
    }
}

/// The modalities a model block declares, when it has a `modalities` object.
pub open spec fn extract_modalities(j: Option<Json>) -> Option<ModalitiesView> {
    match j {
        Some(Json::Object(m)) => Some(
            ModalitiesView {
                input: string_list(Json::Object(m), "input"@),
                output: string_list(Json::Object(m), "output"@),
            },
        ),
        _ => None,
    }
}

/// The model read from the block stored under `key`: its `name` (the key
/// when the name is missing), its `group` and its modalities.
pub open spec fn extract_model(key: Seq<char>, j: Json) -> ModelView {
    ModelView {
        name: match json_get(j, "name"@) {
            Some(Json::Str(s)) => s,
            _ => key,
        },
        group: match json_get(j, "group"@) {
            Some(Json::Str(s)) => Some(s),
            _ => None,
        },
        modalities: extract_modalities(json_get(j, "modalities"@)),
    }
}

/// The models read from a `models` object.
pub open spec fn extract_models(j: Option<Json>) -> Map<Seq<char>, ModelView> {
    match j {
        Some(Json::Object(m)) => Map::new(|k: Seq<char>| m.contains_key(k), |k: Seq<char>| extract_model(k, m[k])),
        _ => Map::empty(),
    }
}

/// The provider read from a provider block.
pub open spec fn extract_provider_block(j: Json) -> ProviderView {
    let options = match json_get(j, "options"@) {
        Some(o) => o,
        None => Json::Null,
    };
    ProviderView {
        name: str_member(j, "name"@),
        npm: str_member(j, "npm"@),
        api_key: str_member(options, "apiKey"@),
        base_url: str_member(options, "baseURL"@),
        models: extract_models(json_get(j, "models"@)),
    }
}

/// The provider an opencode document holds: the first block under
/// `provider`, whatever its key; none when `provider` is missing, not an
/// object or empty.
pub open spec fn extract_provider(doc: Json) -> Option<ProviderView> {
    match json_get(doc, "provider"@) {
        Some(Json::Object(providers)) => match first_member(providers) {
            Some(block) => Some(extract_provider_block(block)),
            None => None,
        },
        _ => None,
    }
}

/// The provider read is the block under the first key of `provider` in
/// code-point order: the key that comes before every other key.
pub proof fn law_provider_under_first_key(doc: Json, providers: Map<Seq<char>, Json>, k: Seq<char>)
    requires
        json_get(doc, "provider"@) == Some(Json::Object(providers)),
        providers.contains_key(k),
        forall|k2: Seq<char>| #[trigger] providers.contains_key(k2) && k2 != k ==> seq_lt(k, k2),
    ensures
        extract_provider(doc) == Some(extract_provider_block(providers[k])),
{
    assert(is_min_key(providers, k));
    let c = choose|c: Seq<char>| is_min_key(providers, c);
    lemma_min_key_unique(providers, c, k);
}

/// A document yields no provider when `provider` is missing, is not an
/// object, or is an empty object.
pub proof fn law_no_provider(doc: Json)
    requires
        match json_get(doc, "provider"@) {
            Some(Json::Object(m)) => m.dom().is_empty(),
            _ => true,
        },
    ensures
        extract_provider(doc) is None,
{
    if let Some(Json::Object(m)) = json_get(doc, "provider"@) {
        if exists|k: Seq<char>| is_min_key(m, k) {
            let k = choose|k: Seq<char>| is_min_key(m, k);
            assert(m.dom().contains(k));
        }
    }
}

/// The minimum key is unique.
pub proof fn lemma_min_key_unique(m: Map<Seq<char>, Json>, a: Seq<char>, b: Seq<char>)
    requires
        is_min_key(m, a),
        is_min_key(m, b),
    ensures
        a == b,
{
    assert(m.contains_key(b));
    assert(m.contains_key(a));
    lemma_seq_lt_total(a, b);
}

/// The member under the smallest key of a list of members, if any.
fn first_of_members(members: &Vec<(String, JsonValue)>) -> (r: Option<&JsonValue>)
    ensures
        match r {
            Some(v) => first_member(members_model(members@)) == Some(model(*v)),
            None => first_member(members_model(members@)) is None,
        },
{
    let ghost mm = members_model(members@);
    if members.len() == 0 {
        proof {
            assert(members_model(members@) =~= Map::<Seq<char>, Json>::empty());
            if exists|k: Seq<char>| is_min_key(mm, k) {
                let k = choose|k: Seq<char>| is_min_key(mm, k);
                assert(mm.contains_key(k));
            }
        }
        return None;
    }
    let mut best: usize = 0;
    let mut i: usize = 1;
    while i < members.len()
        invariant
            1 <= i <= members@.len(),
            best < i,
            forall|j: int| 0 <= j < i ==> members@[j].0@ == members@[best as int].0@ || seq_lt(
                members@[best as int].0@,
                members@[j].0@,
            ),
        decreases members@.len() - i,
    {
        if str_less(members[i].0.as_str(), members[best].0.as_str()) {
            proof {
                assert forall|j: int| 0 <= j < i + 1 implies members@[j].0@ == members@[i as int].0@
                    || seq_lt(members@[i as int].0@, members@[j].0@) by {
                    if j < i && members@[j].0@ != members@[best as int].0@ {
                        lemma_seq_lt_transitive(members@[i as int].0@, members@[best as int].0@, members@[j].0@);
                    }
                }
            }
            best = i;
        } else {
            proof {
                lemma_seq_lt_total(members@[i as int].0@, members@[best as int].0@);
            }
        }
        i = i + 1;
    }
    let key = &members[best].0;
    let r = members_get(members, key.as_str());
    proof {
        let k = members@[best as int].0@;
        lemma_members_lookup(members@, k);
        assert forall|k2: Seq<char>| #[trigger] mm.contains_key(k2) implies k2 == k || seq_lt(k, k2) by {
            lemma_members_lookup(members@, k2);
            let j = last_index_of_key(members@, k2)->0;
            assert(members@[j].0@ == k2);
        }
        assert(is_min_key(mm, k));
        let c = choose|c: Seq<char>| is_min_key(mm, c);
        lemma_min_key_unique(mm, c, k);
    }
    r
}

/// The string held at `j[key]`, or the empty string.
fn str_member_of(j: &JsonValue, key: &str) -> (r: String)
    ensures
        r@ == str_member(j@, key@),
{
    match j.get(key) {
        Some(v) => match v.as_str() {
            Some(s) => copy_string(s),
            None => String::new(),
        },
        None => String::new(),
    }
}

/// The strings among a list of values, in order.
fn strings_of(items: &Vec<JsonValue>) -> (r: Vec<String>)
    ensures
        r.deep_view() == strings_in(items_model(items@)),
{
    let mut out: Vec<String> = Vec::new();
    let mut i: usize = 0;
    proof {
        lemma_items_model(items@);
        assert(items_model(items@).take(0) =~= Seq::<Json>::empty());
        assert(out.deep_view() =~= Seq::<Seq<char>>::empty());
    }
    while i < items.len()
        invariant
            i <= items@.len(),
            items_model(items@).len() == items@.len(),
            forall|j: int| 0 <= j < items@.len() ==> items_model(items@)[j] == model(#[trigger] items@[j]),
            out.deep_view() =~= strings_in(items_model(items@).take(i as int)),
        decreases items@.len() - i,
    {
        let ghost t = items_model(items@).take(i + 1);
        proof {
            assert(t.drop_last() =~= items_model(items@).take(i as int));
            assert(t.last() == model(items@[i as int]));
        }
        match &items[i] {
            JsonValue::Str(s) => {
                let ghost before = out.deep_view();
                out.push(copy_string(s));
                proof {
                    assert(out.deep_view() =~= before.push(s@));
                }
            },
            _ => {},
        }
        i = i + 1;
    }
    proof {
        assert(items_model(items@).take(items@.len() as int) =~= items_model(items@));
    }
    out
}

/// The strings of the array `j[key]`.
fn string_list_of(j: &JsonValue, key: &str) -> (r: Vec<String>)
    ensures
        r.deep_view() == string_list(j@, key@),
{
    match j.get(key) {
        Some(JsonValue::Array(items)) => strings_of(items),
        _ => {
            let r: Vec<String> = Vec::new();
            proof {
                assert(r.deep_view() =~= Seq::<Seq<char>>::empty());
            }
            r
        },
    }
}

/// The model read from the block stored under `key`.
fn extract_model_entry(key: &String, j: &JsonValue) -> (r: ModelEntry)
    ensures
        r@ == extract_model(key@, j@),
{
    let name = match j.get("name") {
        Some(JsonValue::Str(s)) => copy_string(s),
        _ => copy_string(key),
    };
    let group = match j.get("group") {
        Some(JsonValue::Str(s)) => Some(copy_string(s)),
        _ => None,
    };
    let modalities = match j.get("modalities") {
        Some(m) => if m.is_object() {
            Some(Modalities { input: string_list_of(m, "input"), output: string_list_of(m, "output") })
        } else {
            None
        },
        None => None,
    };
    ModelEntry { name, group, modalities }
}

/// The models read from a `models` object.
fn extract_models_of(j: Option<&JsonValue>) -> (r: StrMap<ModelEntry>)
    ensures
        r@ == extract_models(
            match j {
                Some(v) => Some(model(*v)),
                None => None,
            },
        ),
{
    let mut out: StrMap<ModelEntry> = StrMap::new();
    proof {
        assert(out@ =~= Map::<Seq<char>, ModelView>::empty());
    }
    let members = match j {
        Some(JsonValue::Object(members)) => members,
        _ => {
            return out;
        },
    };
    let mut i: usize = 0;
    proof {
        assert(members@.take(0) =~= Seq::<(String, JsonValue)>::empty());
        assert(out@ =~= extract_models(Some(Json::Object(members_model(members@.take(0))))));
    }
    while i < members.len()
        invariant
            i <= members@.len(),
            out@ =~= extract_models(Some(Json::Object(members_model(members@.take(i as int))))),
        decreases members@.len() - i,
    {
        let key = copy_string(&members[i].0);
        let entry = extract_model_entry(&members[i].0, &members[i].1);
        let ghost old_out = out;
        let ghost k = key;
        let ghost e = entry;
        out.insert(key, entry);
        proof {
            StrMap::<ModelEntry>::lemma_insert_view(old_out, out, k, e);
            assert(members@.take(i + 1).drop_last() =~= members@.take(i as int));
            assert(members@.take(i + 1).last() == members@[i as int]);
        }
        i = i + 1;
    }
    proof {
        assert(members@.take(members@.len() as int) =~= members@);
    }
    out
}

/// The provider read from a provider block.
fn extract_provider_block_of(block: &JsonValue) -> (r: ConfigProvider)
    ensures
        r@ == extract_provider_block(block@),
{
    let name = str_member_of(block, "name");
    let npm = str_member_of(block, "npm");
    let (api_key, base_url) = match block.get("options") {
        Some(o) => (str_member_of(o, "apiKey"), str_member_of(o, "baseURL")),
        None => {
            proof {
                assert(str_member(Json::Null, "apiKey"@) == Seq::<char>::empty());
            }
            (String::new(), String::new())
        },
    };
    let models = extract_models_of(block.get("models"));
    ConfigProvider { name, npm, options: ProviderOptions { api_key, base_url }, models }
}

/// Reads the provider an opencode document holds: the first block under
/// `provider` (the one with the smallest key), whatever its key.  It yields
/// nothing when `provider` is missing, not an object or empty.  Of the
/// block it takes `name`, `npm`, `options.apiKey`, `options.baseURL` (each
/// empty when missing) and, for every model, its `name` (the model key
/// when missing), `group` and `modalities`.
pub fn extract_provider_of(doc: &JsonValue) -> (r: Option<ConfigProvider>)
    ensures
        match r {
            Some(p) => extract_provider(doc@) == Some(p@),
            None => extract_provider(doc@) is None,
        },
{
    let providers = match doc.get("provider") {
        Some(JsonValue::Object(members)) => members,
        _ => return None,
    };
    match first_of_members(providers) {
        Some(block) => Some(extract_provider_block_of(block)),
        None => None,
    }
}

/// Modalities as they read back once written: a declaration with both
/// lists empty is not written, so it reads back as none.
pub open spec fn normalize_modalities(m: Option<ModalitiesView>) -> Option<ModalitiesView> {
    match m {
        Some(x) => if x.input.len() == 0 && x.output.len() == 0 {
            None
        } else {
            Some(x)
        },
        None => None,
    }
}

/// The modalities a model block written over `old` reads back: the
/// model's own when it declares any; otherwise those `old` held.
pub open spec fn read_back_modalities(old: Option<Json>, m: Option<ModalitiesView>) -> Option<ModalitiesView> {
    match modalities_json(m) {
        Some(_) => normalize_modalities(m),
        None => extract_modalities(
            match old {
                Some(o) => json_get(o, "modalities"@),
                None => None,
            },
        ),
    }
}

/// When the model declares no modalities, the block written over `old`
/// holds the `modalities` member of `old`, if any.
proof fn lemma_old_modalities_stay(old: Option<Json>, m: ModelView)
    requires
        modalities_json(m.modalities) is None,
    ensures
        json_get(model_json(old, m), "modalities"@) == match old {
            Some(o) => json_get(o, "modalities"@),
            None => None,
        },
{
    reveal_strlit("name");
    reveal_strlit("group");
    reveal_strlit("modalities");
    assert("name"@.len() == 4 && "group"@.len() == 5 && "modalities"@.len() == 10);
}

/// A provider as it reads back once written over the model blocks `olds`.
pub open spec fn read_back_provider(olds: Map<Seq<char>, Json>, p: ProviderView) -> ProviderView {
    ProviderView {
        models: Map::new(
            |k: Seq<char>| p.models.contains_key(k),
            |k: Seq<char>|
                ModelView {
                    name: p.models[k].name,
                    group: p.models[k].group,
                    modalities: read_back_modalities(json_get(Json::Object(olds), k), p.models[k].modalities),
                },
        ),
        ..p
    }
}

/// The strings of an array of strings are the strings themselves.
pub proof fn lemma_strings_in_str_array(x: Seq<Seq<char>>)
    ensures
        strings_in(str_array(x)) == x,
    decreases x.len(),
{
    if x.len() > 0 {
        lemma_strings_in_str_array(x.drop_last());
        assert(str_array(x).drop_last() =~= str_array(x.drop_last()));
        assert(strings_in(str_array(x)) =~= x);
    } else {
        assert(str_array(x) =~= Seq::<Json>::empty());
    }
}

/// A written model block reads back as the model, with its modalities
/// normalized, whatever block it was written over.
pub proof fn lemma_model_read_back(key: Seq<char>, old: Option<Json>, m: ModelView)
    ensures
        extract_model(key, model_json(old, m)) == (ModelView {
            name: m.name,
            group: m.group,
            modalities: read_back_modalities(old, m.modalities),
        }),
{
    reveal_strlit("name");
    reveal_strlit("group");
    reveal_strlit("modalities");
    reveal_strlit("input");
    reveal_strlit("output");
    assert("name"@.len() == 4 && "group"@.len() == 5 && "modalities"@.len() == 10);
    assert("input"@.len() == 5 && "output"@.len() == 6);
    match m.modalities {
        Some(x) => {
            if !(x.input.len() == 0 && x.output.len() == 0) {
                let w = modalities_json(m.modalities)->0->Object_0;
                assert(model_json(old, m)->Object_0.contains_key("modalities"@));
                assert(json_get(model_json(old, m), "modalities"@) == Some(Json::Object(w)));
                let e = extract_modalities(Some(Json::Object(w)))->0;
                if x.input.len() > 0 {
                    lemma_strings_in_str_array(x.input);
                    assert(json_get(Json::Object(w), "input"@) == Some(Json::Array(str_array(x.input))));
                } else {
                    assert(!w.contains_key("input"@));
                    assert(x.input =~= Seq::<Seq<char>>::empty());
                }
                if x.output.len() > 0 {
                    lemma_strings_in_str_array(x.output);
                    assert(json_get(Json::Object(w), "output"@) == Some(Json::Array(str_array(x.output))));
                } else {
                    assert(!w.contains_key("output"@));
                    assert(x.output =~= Seq::<Seq<char>>::empty());
                }
                assert(e.input =~= x.input);
                assert(e.output =~= x.output);
            } else {
                lemma_old_modalities_stay(old, m);
            }
        },
        None => {
            lemma_old_modalities_stay(old, m);
        },
    }
}

/// What an import reads back from an opencode document is the provider the
/// last apply wrote into it (with empty modality declarations dropped),
/// whatever the document held before.
pub proof fn law_read_back_merged(target: Json, p: ProviderView)
    ensures
        extract_provider(merged_opencode(target, p)) == Some(read_back_provider(existing_models(target), p)),
        extract_omos_provider(merged_opencode(target, p)) == Some(read_back_provider(existing_models(target), p)),
{
    reveal_strlit("provider");
    reveal_strlit("omos");
    reveal_strlit("name");
    reveal_strlit("npm");
    reveal_strlit("options");
    reveal_strlit("apiKey");
    reveal_strlit("baseURL");
    reveal_strlit("models");
    assert("name"@.len() == 4 && "npm"@.len() == 3 && "options"@.len() == 7 && "models"@.len() == 6);
    assert("apiKey"@.len() == 6 && "baseURL"@.len() == 7);
    let olds = existing_models(target);
    let providers = Map::<Seq<char>, Json>::empty().insert("omos"@, omos_block(olds, p));
    assert(is_min_key(providers, "omos"@));
    let c = choose|c: Seq<char>| is_min_key(providers, c);
    lemma_min_key_unique(providers, c, "omos"@);
    assert(first_member(providers) == Some(omos_block(olds, p)));
    let got = extract_provider_block(omos_block(olds, p));
    let want = read_back_provider(olds, p);
    assert(got.models =~= want.models) by {
        assert forall|k: Seq<char>| #[trigger] got.models.contains_key(k) implies got.models[k]
            == want.models[k] by {
            lemma_model_read_back(k, json_get(Json::Object(olds), k), p.models[k]);
        }
    }
    assert(got == want);
}


/// The model a role block names: its `model` member, when that is a string.
pub open spec fn role_model(j: Json) -> Option<Seq<char>> {
    match json_get(j, "model"@) {
        Some(Json::Str(s)) => Some(s),
        _ => None,
    }
}

/// The roles listed under `doc[key]`: every member whose block names a
/// model, mapped to `prefix` followed by the model id (what follows the
/// last `/` of the model reference).  None when `doc[key]` is missing or
/// not an object.
pub open spec fn extract_roles(doc: Json, key: Seq<char>, prefix: Seq<char>) -> Map<Seq<char>, Seq<char>> {
    match json_get(doc, key) {
        Some(Json::Object(m)) => Map::new(
            |k: Seq<char>| m.contains_key(k) && role_model(m[k]) is Some,
            |k: Seq<char>| prefix + last_segment(role_model(m[k])->0),
        ),
        _ => Map::empty(),
    }
}

/// Every role whose block names a model is read, as `prefix` followed by
/// the model id: the whole reference when it holds no `/`, and what follows
/// its last `/` otherwise; a role without a model is left out.
pub proof fn law_role_reads_as_prefixed_id(
    doc: Json,
    key: Seq<char>,
    prefix: Seq<char>,
    m: Map<Seq<char>, Json>,
    role: Seq<char>,
)
    requires
        json_get(doc, key) == Some(Json::Object(m)),
        m.contains_key(role),
    ensures
        extract_roles(doc, key, prefix).contains_key(role) <==> role_model(m[role]) is Some,
        role_model(m[role]) matches Some(r) ==> {
            &&& (forall|j: int| 0 <= j < r.len() ==> r[j] != '/') ==> extract_roles(doc, key, prefix)[role]
                == prefix + r
            &&& forall|a: Seq<char>, b: Seq<char>|
                r == a + "/"@ + b && (forall|j: int| 0 <= j < b.len() ==> b[j] != '/') ==> extract_roles(
                    doc,
                    key,
                    prefix,
                )[role] == prefix + b
        },
{
    if let Some(r) = role_model(m[role]) {
        if forall|j: int| 0 <= j < r.len() ==> r[j] != '/' {
            lemma_last_segment(r, 0);
            assert(r.subrange(0, r.len() as int) =~= r);
        }
        assert forall|a: Seq<char>, b: Seq<char>|
            r == a + "/"@ + b && (forall|j: int| 0 <= j < b.len() ==> b[j] != '/') implies extract_roles(
                doc,
                key,
                prefix,
            )[role] == prefix + b by {
            reveal_strlit("/");
            let i: int = a.len() as int + 1;
            assert(r[i - 1] == '/');
            assert forall|j: int| i <= j < r.len() implies r[j] != '/' by {
                assert(r[j] == b[j - i]);
            }
            lemma_last_segment(r, i);
            assert(r.subrange(i, r.len() as int) =~= b);
        }
    }
}

/// Reads the roles listed under `doc[key]` (see [`extract_roles`]).
pub fn extract_roles_of(doc: &JsonValue, key: &str, prefix: &str) -> (r: StrMap<String>)
    ensures
        r@ == extract_roles(doc@, key@, prefix@),
{
    let mut out: StrMap<String> = StrMap::new();
    proof {
        assert(out@ =~= Map::<Seq<char>, Seq<char>>::empty());
    }
    let members = match doc.get(key) {
        Some(JsonValue::Object(members)) => members,
        _ => {
            return out;
        },
    };
    let ghost mm = members_model(members@);
    let mut i: usize = 0;
    proof {
        assert(members@.take(0) =~= Seq::<(String, JsonValue)>::empty());
    }
    while i < members.len()
        invariant
            i <= members@.len(),
            mm == members_model(members@),
            out@ =~= Map::new(
                |k: Seq<char>| members_model(members@.take(i as int)).contains_key(k) && role_model(mm[k]) is Some,
                |k: Seq<char>| prefix@ + last_segment(role_model(mm[k])->0),
            ),
        decreases members@.len() - i,
    {
        let key_i = &members[i].0;
        proof {
            lemma_members_lookup(members@, key_i@);
            assert(members@.take(i + 1) =~= members@.take(i as int).push(members@[i as int]));
            lemma_members_push(members@.take(i as int), members@[i as int].0, members@[i as int].1);
        }
        match members_get(members, key_i.as_str()) {
            Some(block) => match block.get("model") {
                Some(JsonValue::Str(s)) => {
                    let v = concat_str(prefix, last_segment_of(s.as_str()).as_str());
                    let ghost old_out = out;
                    let k = copy_string(key_i);
                    let ghost gk = k;
                    let ghost gv = v;
                    out.insert(k, v);
                    proof {
                        StrMap::<String>::lemma_insert_view(old_out, out, gk, gv);
                    }
                },
                _ => {},
            },
            None => {},
        }
        i = i + 1;
    }
    proof {
        assert(members@.take(members@.len() as int) =~= members@);
    }
    out
}

/// Reads the provider an opencode text (JSONC) holds, as
/// [`extract_provider_of`] does; a text that does not parse is reported as
/// [`parse_jsonc`] reports it.
pub fn read_opencode_provider_text(content: &str) -> (r: Result<Option<ConfigProvider>, AppError>)
    ensures
        match (r, spec_parse_jsonc(content@)) {
            (Ok(Some(p)), Ok(doc)) => extract_provider(doc) == Some(p@),
            (Ok(None), Ok(doc)) => extract_provider(doc) is None,
            (Err(e), Err(ev)) => is_error(e, ev),
            _ => false,
        },
{
    let doc = parse_jsonc(content)?;
    Ok(extract_provider_of(&doc))
}

/// The provider written as `provider.omos` in an opencode document; none
/// when there is no such block.
pub open spec fn extract_omos_provider(doc: Json) -> Option<ProviderView> {
    match json_get(doc, "provider"@) {
        Some(providers) => match json_get(providers, "omos"@) {
            Some(block) => Some(extract_provider_block(block)),
            None => None,
        },
        None => None,
    }
}

/// Reads the `provider.omos` block of an opencode text (JSONC), as
/// [`extract_provider_of`] reads a block; nothing when the document has no
/// `provider.omos`.  A text that does not parse is reported as
/// [`parse_jsonc`] reports it.
pub fn read_omos_provider_text(content: &str) -> (r: Result<Option<ConfigProvider>, AppError>)
    ensures
        match (r, spec_parse_jsonc(content@)) {
            (Ok(Some(p)), Ok(doc)) => extract_omos_provider(doc) == Some(p@),
            (Ok(None), Ok(doc)) => extract_omos_provider(doc) is None,
            (Err(e), Err(ev)) => is_error(e, ev),
            _ => false,
        },
{
    let doc = parse_jsonc(content)?;
    match doc.get("provider") {
        Some(providers) => match providers.get("omos") {
            Some(block) => Ok(Some(extract_provider_block_of(block))),
            None => Ok(None),
        },
        None => Ok(None),
    }
}

/// Reads the roles of an oh-my-openagent text (strict JSON): the agents and
/// the categories, each mapped to `omos/` and its model id.
pub fn read_omos_roles_text(content: &str) -> (r: Result<(StrMap<String>, StrMap<String>), AppError>)
    ensures
        match (r, spec_json_parse(content@)) {
            (Ok((a, c)), Ok(doc)) => a@ == extract_roles(doc, "agents"@, "omos/"@) && c@
                == extract_roles(doc, "categories"@, "omos/"@),
            (Err(e), Err(msg)) => is_error(e, AppErrorView::InvalidJson(msg)),
            _ => false,
        },
{
    let doc = parse_json(content)?;
    let agents = extract_roles_of(&doc, "agents", "omos/");
    let categories = extract_roles_of(&doc, "categories", "omos/");
    Ok((agents, categories))
}

/// The provider of a payload that has none: every field empty.
pub open spec fn empty_provider() -> ProviderView {
    ProviderView {
        name: Seq::empty(),
        npm: Seq::empty(),
        api_key: Seq::empty(),
        base_url: Seq::empty(),
        models: Map::empty(),
    }
}

/// The mark an automatic import leaves in `source`: the two files it reads
/// from the opencode directory `dir` (`win`: whether paths follow Windows
/// rules).
pub open spec fn spec_auto_source(dir: Seq<char>, win: bool) -> Seq<char> {
    "auto:"@ + path_join(dir, "opencode.jsonc"@, win) + "|"@ + path_join(dir, "oh-my-openagent.json"@, win)
}

/// The mark an automatic import from the opencode directory `dir` leaves.
pub fn auto_import_source(dir: &str, win: bool) -> (r: String)
    ensures
        r@ == spec_auto_source(dir@, win),
{
    let a = join(dir, "opencode.jsonc", win);
    let b = join(dir, "oh-my-openagent.json", win);
    let mut r = concat_str("auto:", a.as_str());
    r.append("|");
    r.append(b.as_str());
    r
}

/// The payload of an automatic import from the opencode directory `dir`:
/// none when neither a provider nor the roles were found; otherwise
/// labelled "Auto-Imported", with the provider found (or an empty one), the
/// roles found (or none) and the import's mark as `source`.
pub fn auto_import_payload(
    dir: &str,
    win: bool,
    provider: Option<ConfigProvider>,
    roles: Option<(StrMap<String>, StrMap<String>)>,
) -> (r: Option<ConfigPayload>)
    ensures
        r is None <==> (provider is None && roles is None),
        r matches Some(p) ==> {
            &&& p.label@ == "Auto-Imported"@
            &&& p.source matches Some(s) && s@ == spec_auto_source(dir@, win)
            &&& p.provider@ == match provider {
                Some(x) => x@,
                None => empty_provider(),
            }
            &&& p.agents@ == match roles {
                Some((a, _)) => a@,
                None => Map::empty(),
            }
            &&& p.categories@ == match roles {
                Some((_, c)) => c@,
                None => Map::empty(),
            }
        },
{
    if provider.is_none() && roles.is_none() {
        return None;
    }
    let provider = match provider {
        Some(p) => p,
        None => {
            let p = ConfigProvider::default();
            proof {
                assert(p.models@ =~= Map::<Seq<char>, ModelView>::empty());
            }
            p
        },
    };
    let (agents, categories) = match roles {
        Some(r) => r,
        None => {
            let a: StrMap<String> = StrMap::new();
            let c: StrMap<String> = StrMap::new();
            proof {
                assert(a@ =~= Map::<Seq<char>, Seq<char>>::empty());
                assert(c@ =~= Map::<Seq<char>, Seq<char>>::empty());
            }
            (a, c)
        },
    };
    Some(ConfigPayload {
        label: String::from_str("Auto-Imported"),
        provider,
        agents,
        categories,
        source: Some(auto_import_source(dir, win)),
    })
}

/// The identifier of the first configuration (in the order given) whose
/// payload carries the mark `source`, if any.
pub fn find_config_by_source(configs: &Vec<Config>, source: &str) -> (r: Option<String>)
    ensures
        match r {
            Some(id) => exists|i: int|
                0 <= i < configs@.len() && configs@[i].id@ == id@ && opt_str_view(
                    configs@[i].payload.source,
                ) == Some(source@) && forall|j: int|
                    0 <= j < i ==> opt_str_view(#[trigger] configs@[j].payload.source) != Some(source@),
            None => forall|i: int|
                0 <= i < configs@.len() ==> opt_str_view(#[trigger] configs@[i].payload.source) != Some(source@),
        },
{
    proof {
        lemma_first_marked(configs@, source@);
    }
    match first_marked_index(configs, source) {
        Some(i) => {
            proof {
                assert forall|j: int| 0 <= j < i implies opt_str_view(
                    #[trigger] configs@[j].payload.source,
                ) != Some(source@) by {
                    assert(!has_mark(configs@[j], source@));
                }
            }
            Some(copy_string(&configs[i].id))
        },
        None => {
            proof {
                assert forall|j: int| 0 <= j < configs@.len() implies opt_str_view(
                    #[trigger] configs@[j].payload.source,
                ) != Some(source@) by {
                    assert(!has_mark(configs@[j], source@));
                }
            }
            None
        },
    }
}

/// Whether the payload of `c` carries the mark `source`.
pub open spec fn has_mark(c: Config, source: Seq<char>) -> bool {
    opt_str_view(c.payload.source) == Some(source)
}

/// The position of the first configuration of `configs` carrying the mark
/// `source`, if any.
pub open spec fn first_marked(configs: Seq<Config>, source: Seq<char>) -> Option<int>
    decreases configs.len(),
{
    if configs.len() == 0 {
        None
    } else {
        match first_marked(configs.drop_last(), source) {
            Some(i) => Some(i),
            None => if has_mark(configs.last(), source) {
                Some(configs.len() - 1)
            } else {
                None
            },
        }
    }
}

/// `first_marked` finds the first marked configuration, and finds none
/// only where none is marked.
pub proof fn lemma_first_marked(configs: Seq<Config>, source: Seq<char>)
    ensures
        match first_marked(configs, source) {
            Some(i) => 0 <= i < configs.len() && has_mark(configs[i], source) && forall|j: int|
                0 <= j < i ==> !has_mark(#[trigger] configs[j], source),
            None => forall|j: int| 0 <= j < configs.len() ==> !has_mark(#[trigger] configs[j], source),
        },
    decreases configs.len(),
{
    if configs.len() > 0 {
        let init = configs.drop_last();
        lemma_first_marked(init, source);
        assert forall|j: int| 0 <= j < init.len() implies init[j] == configs[j] by {}
    }
}

/// The position of the first configuration carrying the mark `source`.
fn first_marked_index(configs: &Vec<Config>, source: &str) -> (r: Option<usize>)
    ensures
        match r {
            Some(i) => i < configs@.len() && first_marked(configs@, source@) == Some(i as int),
            None => first_marked(configs@, source@) is None,
        },
{
    proof {
        lemma_first_marked(configs@, source@);
    }
    let mut i: usize = 0;
    while i < configs.len()
        invariant
            i <= configs@.len(),
            forall|j: int| 0 <= j < i ==> !has_mark(#[trigger] configs@[j], source@),
            match first_marked(configs@, source@) {
                Some(k) => 0 <= k < configs@.len() && has_mark(configs@[k], source@) && forall|j: int|
                    0 <= j < k ==> !has_mark(#[trigger] configs@[j], source@),
                None => forall|j: int| 0 <= j < configs@.len() ==> !has_mark(#[trigger] configs@[j], source@),
            },
        decreases configs@.len() - i,
    {
        let found = match &configs[i].payload.source {
            Some(s) => str_equal(s.as_str(), source),
            None => false,
        };
        if found {
            proof {
                assert(has_mark(configs@[i as int], source@));
                if let Some(k) = first_marked(configs@, source@) {
                    if k < i {
                        assert(!has_mark(configs@[k], source@));
                    } else if k > i {
                        assert(!has_mark(configs@[i as int], source@));
                    }
                }
            }
            return Some(i);
        }
        i = i + 1;
    }
    None
}

/// The configuration an automatic import writes with `payload`, given the
/// saved configurations `configs`: the first one carrying the payload's
/// mark, updated with the payload at `now`; where none does (or the payload
/// has no mark), a new configuration `new_id` created at `now` holding the
/// payload.  The flag is true for a new configuration.
pub fn auto_import_config(configs: &Vec<Config>, payload: ConfigPayload, new_id: String, now: Timestamp) -> (r: (
    Config,
    bool,
))
    ensures
        r.0.payload@ == payload@,
        r.0.label@ == payload.label@,
        r.0.updated_at == now,
        match payload.source {
            Some(s) => match first_marked(configs@, s@) {
                Some(i) => !r.1 && r.0.id@ == configs@[i].id@ && r.0.created_at == configs@[i].created_at,
                None => r.1 && r.0.id@ == new_id@ && r.0.created_at == now,
            },
            None => r.1 && r.0.id@ == new_id@ && r.0.created_at == now,
        },
{
    let found = match &payload.source {
        Some(s) => first_marked_index(configs, s.as_str()),
        None => None,
    };
    let label = copy_string(&payload.label);
    match found {
        Some(i) => {
            let base = &configs[i];
            (Config { id: copy_string(&base.id), label, created_at: base.created_at, updated_at: now, payload }, false)
        },
        None => (Config { id: new_id, label, created_at: now, updated_at: now, payload }, true),
    }
}

/// An automatic import is recognised by the next one.  Let `c`, carrying
/// the mark `source`, be what an import wrote: under the identifier of the
/// first configuration carrying the mark, or, where none does, under an
/// identifier no configuration has.  Once `c` is stored, the first
/// configuration carrying the mark is `c`, and one configuration was added
/// exactly when none carried the mark before.
pub proof fn law_auto_import_recognised(configs: Seq<Config>, source: Seq<char>, c: Config)
    requires
        distinct_ids(configs),
        has_mark(c, source),
        match first_marked(configs, source) {
            Some(i) => c.id@ == configs[i].id@,
            None => forall|i: int| 0 <= i < configs.len() ==> #[trigger] configs[i].id@ != c.id@,
        },
    ensures
        ({
            let after = stored(configs, c);
            &&& first_marked(after, source) matches Some(j) && after[j] == c
            &&& after.len() == configs.len() + if first_marked(configs, source) is Some {
                0int
            } else {
                1int
            }
        }),
{
    let after = stored(configs, c);
    lemma_first_marked(configs, source);
    lemma_first_marked(after, source);
    match first_marked(configs, source) {
        Some(i) => {
            let k = choose|k: int| 0 <= k < configs.len() && configs[k].id@ == c.id@;
            if k != i {
                if k < i {
                    assert(configs[k].id@ != configs[i].id@);
                } else {
                    assert(configs[i].id@ != configs[k].id@);
                }
            }
            assert(after == configs.update(i, c));
            assert(after[i] == c);
            if let Some(j) = first_marked(after, source) {
                if j < i {
                    assert(after[j] == configs[j]);
                } else if j > i {
                    assert(!has_mark(after[i], source));
                }
            }
        },
        None => {
            let n = configs.len() as int;
            assert(!exists|k: int| 0 <= k < configs.len() && configs[k].id@ == c.id@);
            assert(after == configs.push(c));
            assert(after[n] == c);
            assert forall|j: int| 0 <= j < n implies after[j] == configs[j] by {}
            if let Some(j) = first_marked(after, source) {
                if j < n {
                    assert(!has_mark(configs[j], source));
                }
            } else {
                assert(!has_mark(after[n], source));
            }
        },
    }
}

/// The string members of `doc[key]`, when it is an object.
pub open spec fn string_members(doc: Json, key: Seq<char>) -> Map<Seq<char>, Seq<char>> {
    match json_get(doc, key) {
        Some(Json::Object(m)) => Map::new(
            |k: Seq<char>| m.contains_key(k) && json_as_str(m[k]) is Some,
            |k: Seq<char>| json_as_str(m[k])->0,
        ),
        _ => Map::empty(),
    }
}

/// The string members of `doc[key]`.
fn string_members_of(doc: &JsonValue, key: &str) -> (r: StrMap<String>)
    ensures
        r@ == string_members(doc@, key@),
{
    let mut out: StrMap<String> = StrMap::new();
    proof {
        assert(out@ =~= Map::<Seq<char>, Seq<char>>::empty());
    }
    let members = match doc.get(key) {
        Some(JsonValue::Object(members)) => members,
        _ => {
            return out;
        },
    };
    let ghost mm = members_model(members@);
    let mut i: usize = 0;
    proof {
        assert(members@.take(0) =~= Seq::<(String, JsonValue)>::empty());
    }
    while i < members.len()
        invariant
            i <= members@.len(),
            mm == members_model(members@),
            out@ =~= Map::new(
                |k: Seq<char>| members_model(members@.take(i as int)).contains_key(k) && json_as_str(mm[k]) is Some,
                |k: Seq<char>| json_as_str(mm[k])->0,
            ),
        decreases members@.len() - i,
    {
        let key_i = &members[i].0;
        proof {
            lemma_members_lookup(members@, key_i@);
            assert(members@.take(i + 1) =~= members@.take(i as int).push(members@[i as int]));
            lemma_members_push(members@.take(i as int), members@[i as int].0, members@[i as int].1);
        }
        match members_get(members, key_i.as_str()) {
            Some(JsonValue::Str(s)) => {
                let ghost old_out = out;
                let k = copy_string(key_i);
                let v = copy_string(s);
                let ghost gk = k;
                let ghost gv = v;
                out.insert(k, v);
                proof {
                    StrMap::<String>::lemma_insert_view(old_out, out, gk, gv);
                }
            },
            _ => {},
        }
        i = i + 1;
    }
    proof {
        assert(members@.take(members@.len() as int) =~= members@);
    }
    out
}

/// Removes the member under `key` (the last one carrying it) from a list
/// of members and returns its value.
fn take_member(members: Vec<(String, JsonValue)>, key: &str) -> (r: Option<JsonValue>)
    ensures
        match r {
            Some(v) => members_model(members@).contains_key(key@) && v@ == members_model(members@)[key@],
            None => !members_model(members@).contains_key(key@),
        },
{
    proof {
        lemma_members_lookup(members@, key@);
    }
    let mut list = members;
    let ghost orig = list@;
    let mut i = list.len();
    while i > 0
        invariant
            list@ == orig,
            orig == members@,
            i <= orig.len(),
            forall|j: int| i <= j < orig.len() ==> orig[j].0@ != key@,
            members_model(orig).contains_key(key@) <==> last_index_of_key(orig, key@) is Some,
            last_index_of_key(orig, key@) matches Some(x) ==> 0 <= x < orig.len() && orig[x].0@ == key@
                && members_model(orig)[key@] == model(orig[x].1) && forall|j: int|
                x < j < orig.len() ==> orig[j].0@ != key@,
            last_index_of_key(orig, key@) is None ==> forall|j: int| 0 <= j < orig.len() ==> orig[j].0@ != key@,
        decreases i,
    {
        i = i - 1;
        if str_equal(list[i].0.as_str(), key) {
            proof {
                assert(orig[i as int].0@ == key@);
                assert(last_index_of_key(orig, key@) == Some(i as int));
            }
            let (_, v) = list.remove(i);
            proof {
                assert(v == orig[i as int].1);
            }
            return Some(v);
        }
    }
    None
}

/// What a configuration file being imported must hold: a non-empty string
/// `label`, a `provider`, `agents` and `categories`; the string members of
/// `agents` and `categories` are taken, other members are ignored.
#[derive(Debug)]
pub struct ImportedDocument {
    pub label: String,
    /// The `provider` member as it stands in the file.
    pub provider: JsonValue,
    pub agents: StrMap<String>,
    pub categories: StrMap<String>,
}

/// The outcome of checking a configuration file: its label and provider,
/// or the text of the `InvalidJson` error (the file's path, with the
/// reason for a missing part).
pub open spec fn spec_check_import(path: Seq<char>, content: Seq<char>) -> Result<(Seq<char>, Json), Seq<char>> {
    match spec_json_parse(content) {
        Err(_) => Err(path),
        Ok(doc) => match json_get(doc, "label"@) {
            Some(Json::Str(l)) => if l.len() > 0 {
                match json_get(doc, "provider"@) {
                    Some(p) => if json_get(doc, "agents"@) is None {
                        Err(path + " (missing 'agents')"@)
                    } else if json_get(doc, "categories"@) is None {
                        Err(path + " (missing 'categories')"@)
                    } else {
                        Ok((l, p))
                    },
                    None => Err(path + " (missing 'provider')"@),
                }
            } else {
                Err(path + " (missing or empty 'label')"@)
            },
            _ => Err(path + " (missing or empty 'label')"@),
        },
    }
}

/// Checks the text of a configuration file to import, found at `path`
/// (see [`ImportedDocument`]); every failure is an `InvalidJson` error
/// naming the file and, for a missing part, that part.
pub fn check_import_document(path: &str, content: &str) -> (r: Result<ImportedDocument, AppError>)
    ensures
        match (r, spec_check_import(path@, content@)) {
            (Ok(d), Ok((l, p))) => {
                &&& d.label@ == l
                &&& d.provider@ == p
                &&& spec_json_parse(content@) matches Ok(doc)
                &&& d.agents@ == string_members(doc, "agents"@)
                &&& d.categories@ == string_members(doc, "categories"@)
            },
            (Err(e), Err(t)) => e matches AppError::InvalidJson { path: ep } && ep@ == t,
            _ => false,
        },
{
    let doc = match parse_json(content) {
        Ok(d) => d,
        Err(_) => return Err(AppError::InvalidJson { path: String::from_str(path) }),
    };
    let label = match doc.get("label") {
        Some(JsonValue::Str(l)) => if l.unicode_len() > 0 {
            copy_string(l)
        } else {
            return Err(AppError::InvalidJson { path: concat_str(path, " (missing or empty 'label')") });
        },
        _ => return Err(AppError::InvalidJson { path: concat_str(path, " (missing or empty 'label')") }),
    };
    if doc.get("provider").is_none() {
        return Err(AppError::InvalidJson { path: concat_str(path, " (missing 'provider')") });
    }
    if doc.get("agents").is_none() {
        return Err(AppError::InvalidJson { path: concat_str(path, " (missing 'agents')") });
    }
    if doc.get("categories").is_none() {
        return Err(AppError::InvalidJson { path: concat_str(path, " (missing 'categories')") });
    }
    let agents = string_members_of(&doc, "agents");
    let categories = string_members_of(&doc, "categories");
    let ghost gdoc = doc@;
    let provider = match doc {
        JsonValue::Object(members) => take_member(members, "provider"),
        _ => None,
    };
    match provider {
        Some(p) => Ok(ImportedDocument { label, provider: p, agents, categories }),
        None => {
            proof {
                assert(false);
            }
            Err(AppError::InvalidJson { path: concat_str(path, " (missing 'provider')") })
        },
    }
}

/// The part of a text after its last `/` holds no `/`.
proof fn lemma_last_segment_has_no_slash(s: Seq<char>)
    ensures
        forall|i: int| 0 <= i < last_segment(s).len() ==> #[trigger] last_segment(s)[i] != '/',
    decreases s.len(),
{
    if s.len() > 0 && s.last() != '/' {
        lemma_last_segment_has_no_slash(s.drop_last());
        let t = last_segment(s.drop_last());
        assert(last_segment(s) == t.push(s.last()));
        assert forall|i: int| 0 <= i < last_segment(s).len() implies #[trigger] last_segment(s)[i] != '/' by {
            if i < t.len() {
                assert(last_segment(s)[i] == t[i]);
            }
        }
    }
}

/// A case match is the key of one of the provider's models.
proof fn lemma_case_match_is_key(models: Seq<(String, ModelEntry)>, id: Seq<char>)
    ensures
        case_match(models, id) matches Some(k) ==> exists|i: int| 0 <= i < models.len() && models[i].0@ == k,
    decreases models.len(),
{
    if models.len() > 0 {
        let t = models.drop_last();
        lemma_case_match_is_key(t, id);
        if spec_lowercase(models.last().0@) == spec_lowercase(id) {
            assert(models[models.len() - 1].0@ == models.last().0@);
        } else if case_match(t, id) is Some {
            let i = choose|i: int| 0 <= i < t.len() && t[i].0@ == case_match(t, id)->0;
            assert(models[i] == t[i]);
        }
    }
}

/// No model key of the provider holds a `/`.
pub open spec fn model_keys_without_slash(models: Seq<(String, ModelEntry)>) -> bool {
    forall|i: int, j: int| 0 <= i < models.len() && 0 <= j < models[i].0@.len() ==> models[i].0@[j] != '/'
}

/// The role written for reference `r` reads back as the reference written.
proof fn lemma_role_read_back(models: Seq<(String, ModelEntry)>, r: Seq<char>)
    requires
        model_keys_without_slash(models),
    ensures
        role_model(role_json(models, r)) == Some(omos_ref(models, r)),
        "omos/"@ + last_segment(omos_ref(models, r)) == omos_ref(models, r),
{
    reveal_strlit("model");
    reveal_strlit("omos/");
    let id = model_id_of(r);
    let resolved = match case_match(models, id) {
        Some(k) => k,
        None => id,
    };
    lemma_case_match_is_key(models, id);
    lemma_last_segment_has_no_slash(r);
    assert forall|j: int| 0 <= j < resolved.len() implies resolved[j] != '/' by {
        if case_match(models, id) is Some {
            let i = choose|i: int| 0 <= i < models.len() && models[i].0@ == resolved;
            assert(models[i].0@[j] != '/');
        } else {
            assert(last_segment(r)[j] != '/');
        }
    }
    let w = "omos/"@ + resolved;
    assert(w == omos_ref(models, r));
    assert(w[4] == '/');
    assert forall|j: int| 5 <= j < w.len() implies w[j] != '/' by {
        assert(w[j] == resolved[j - 5]);
    }
    lemma_last_segment(w, 5);
    assert(w.subrange(5, w.len() as int) =~= resolved);
}

/// The roles read back (with the `omos/` prefix) from an oh-my-openagent
/// document the library built are the references it wrote there, as long
/// as no provider model key holds a `/`.
pub proof fn law_roles_read_back(
    models: Seq<(String, ModelEntry)>,
    agents: Map<Seq<char>, Seq<char>>,
    categories: Map<Seq<char>, Seq<char>>,
)
    requires
        model_keys_without_slash(models),
    ensures
        extract_roles(oh_my_openagent_json(models, agents, categories), "agents"@, "omos/"@)
            == agents.map_values(|r: Seq<char>| omos_ref(models, r)),
        extract_roles(oh_my_openagent_json(models, agents, categories), "categories"@, "omos/"@)
            == categories.map_values(|r: Seq<char>| omos_ref(models, r)),
{
    reveal_strlit("agents");
    reveal_strlit("categories");
    reveal_strlit("$schema");
    assert("agents"@.len() == 6 && "categories"@.len() == 10 && "$schema"@.len() == 7);
    let doc = oh_my_openagent_json(models, agents, categories);
    assert(json_get(doc, "agents"@) == Some(roles_json(models, agents)));
    assert(json_get(doc, "categories"@) == Some(roles_json(models, categories)));
    assert forall|k: Seq<char>| agents.contains_key(k) implies #[trigger] role_model(
        roles_json(models, agents)->Object_0[k],
    ) == Some(omos_ref(models, agents[k])) && "omos/"@ + last_segment(omos_ref(models, agents[k]))
        == omos_ref(models, agents[k]) by {
        lemma_role_read_back(models, agents[k]);
    }
    assert forall|k: Seq<char>| categories.contains_key(k) implies #[trigger] role_model(
        roles_json(models, categories)->Object_0[k],
    ) == Some(omos_ref(models, categories[k])) && "omos/"@ + last_segment(omos_ref(models, categories[k]))
        == omos_ref(models, categories[k]) by {
        lemma_role_read_back(models, categories[k]);
    }
    assert(extract_roles(doc, "agents"@, "omos/"@) =~= agents.map_values(|r: Seq<char>| omos_ref(models, r)));
    assert(extract_roles(doc, "categories"@, "omos/"@) =~= categories.map_values(
        |r: Seq<char>| omos_ref(models, r),
    ));
}

} // verus!
