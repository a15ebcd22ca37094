//! The AI settings as shown to the user: stored profiles and task choices,
//! or, before anything is stored, the models configured in the
//! environment; and the key used to test a model.

use vstd::prelude::*;
use crate::ai_settings::{
    resolution, resolve_persisted_setting, AiClientChoice, AiModelTask, ResolvedAiModel,
    api_key_preview, key_preview, AiProviderProfileInput, AiProviderProfileRecord,
    AiSettingsUpdateRequest, AiTaskModelSettingRecord,
};
use crate::facts::{insert_sorted, strictly_sorted};
use crate::lexeme_extract::sorted_set;
use crate::text::{chars_of, extend_str, is_blank, owned, same, str_views, string_of, trim, trim_str, views};

verus! {

/// A provider profile as shown.
#[derive(Debug)]
pub struct AiProviderProfileView {
    pub id: Option<i64>,
    pub name: String,
    pub base_url: String,
    pub model_ids: Vec<String>,
    pub is_default: bool,
    pub api_key_set: bool,
    pub api_key_preview: Option<String>,
}

/// A task's model choice as shown.
#[derive(Debug)]
pub struct AiTaskModelSettingView {
    pub task_key: String,
    pub provider_name: Option<String>,
    pub model_id: Option<String>,
    pub inherit_task_key: Option<String>,
}

/// The settings as shown.
#[derive(Debug)]
pub struct AiSettingsResponse {
    pub profiles: Vec<AiProviderProfileView>,
    pub task_settings: Vec<AiTaskModelSettingView>,
}

/// The models configured in the environment.
#[derive(Debug)]
pub struct EnvModels {
    pub analyze: String,
    pub analyze_pro: String,
    pub follow_up: String,
    pub follow_up_pro: String,
    pub intelligent_search: String,
    pub embedding: String,
    pub fallback_fast: String,
    pub fallback_pro: String,
    pub structure: String,
}

/// The provider configured in the environment.
#[derive(Debug)]
pub struct EnvProvider {
    pub base_url: Option<String>,
    pub api_key: Option<String>,
    pub models: EnvModels,
}

pub open spec fn env_model_list(m: EnvModels) -> Seq<Seq<char>> {
    seq![
        m.analyze@,
        m.analyze_pro@,
        m.follow_up@,
        m.follow_up_pro@,
        m.intelligent_search@,
        m.embedding@,
        m.fallback_fast@,
        m.fallback_pro@,
        m.structure@,
    ]
}

/// The distinct non-empty model ids of the environment, sorted.
pub open spec fn env_ids_ok(r: Seq<Seq<char>>, m: EnvModels) -> bool {
    strictly_sorted(r) && forall|v: Seq<char>|
        r.contains(v) <==> (env_model_list(m).contains(v) && v.len() > 0)
}

pub fn env_model_ids(models: &EnvModels) -> (r: Vec<String>)
    ensures
        env_ids_ok(str_views(r@), *models),
{
    let all: [&str; 9] = [
        models.analyze.as_str(),
        models.analyze_pro.as_str(),
        models.follow_up.as_str(),
        models.follow_up_pro.as_str(),
        models.intelligent_search.as_str(),
        models.embedding.as_str(),
        models.fallback_fast.as_str(),
        models.fallback_pro.as_str(),
        models.structure.as_str(),
    ];
    let ghost list = env_model_list(*models);
    assert(all@.map_values(|s: &str| s@) =~= list);
    let mut set: Vec<Vec<char>> = Vec::new();
    let mut i: usize = 0;
    while i < 9
        invariant
            0 <= i <= 9,
            all@.map_values(|s: &str| s@) == list,
            list == env_model_list(*models),
            strictly_sorted(views(set@)),
            forall|v: Seq<char>| views(set@).contains(v) <==> (list.take(i as int).contains(v) && v.len() > 0),
        decreases 9 - i,
    {
        let c = chars_of(all[i]);
        assert(c@ == list[i as int]);
        let ghost prev = list.take(i as int);
        assert(list.take(i + 1) =~= prev.push(list[i as int]));
        proof {
            assert forall|v: Seq<char>| prev.push(list[i as int]).contains(v) <==> (prev.contains(v) || v == list[i as int]) by {
                if prev.push(list[i as int]).contains(v) {
                    let k = choose|k: int| 0 <= k < prev.len() + 1 && prev.push(list[i as int])[k] == v;
                    if k < prev.len() {
                        assert(prev[k] == v);
                    }
                }
                if prev.contains(v) {
                    let k = choose|k: int| 0 <= k < prev.len() && prev[k] == v;
                    assert(prev.push(list[i as int])[k] == v);
                }
                if v == list[i as int] {
                    assert(prev.push(list[i as int])[prev.len() as int] == v);
                }
            }
        }
        let ghost old_set = views(set@);
        let ghost cv = c@;
        if c.len() > 0 {
            insert_sorted(&mut set, c);
        }
        assert forall|v: Seq<char>| views(set@).contains(v) <==> (list.take(i + 1).contains(v) && v.len() > 0) by {
            assert(list.take(i + 1)[i as int] == cv);
            if v == cv {
                assert(list.take(i + 1).contains(v));
            }
        }
        i = i + 1;
    }
    assert(list.take(9) =~= list);
    crate::dictionary::strings_of_views(&set)
}

/// A task answered by the environment profile with a model.
pub fn direct_task(task_key: &str, provider_name: &str, model_id: &str) -> (r: AiTaskModelSettingView)
    ensures
        r.task_key@ == task_key@,
        r.provider_name is Some && r.provider_name.unwrap()@ == provider_name@,
        r.model_id is Some && r.model_id.unwrap()@ == model_id@,
        r.inherit_task_key is None,
{
    AiTaskModelSettingView {
        task_key: owned(task_key),
        provider_name: Some(owned(provider_name)),
        model_id: Some(owned(model_id)),
        inherit_task_key: None,
    }
}

/// The task keys of the environment settings, in order, and the model each
/// uses (the phrase task inherits the analysis model).
pub open spec fn env_task_keys() -> Seq<Seq<char>> {
    seq!["analyze"@, "phrase"@, "structure"@, "embedding"@, "intelligent_search"@]
}

/// The environment's choice for a task: the phrase task inherits the
/// analysis one; every other task uses the environment profile with the
/// environment's model for it.
pub open spec fn env_task_ok(t: AiTaskModelSettingView, m: EnvModels) -> bool {
    if t.task_key@ == "phrase"@ {
        t.provider_name is None && t.model_id is None && t.inherit_task_key is Some
            && t.inherit_task_key.unwrap()@ == "analyze"@
    } else {
        &&& t.provider_name is Some && t.provider_name.unwrap()@ == "环境变量"@
        &&& t.inherit_task_key is None
        &&& t.model_id is Some
        &&& t.model_id.unwrap()@ == (if t.task_key@ == "analyze"@ {
            m.analyze@
        } else if t.task_key@ == "structure"@ {
            m.structure@
        } else if t.task_key@ == "embedding"@ {
            m.embedding@
        } else {
            m.intelligent_search@
        })
    }
}

proof fn lemma_task_keys_distinct()
    ensures
        "analyze"@ != "phrase"@,
        "structure"@ != "phrase"@,
        "structure"@ != "analyze"@,
        "embedding"@ != "phrase"@,
        "embedding"@ != "analyze"@,
        "embedding"@ != "structure"@,
        "intelligent_search"@ != "phrase"@,
        "intelligent_search"@ != "analyze"@,
        "intelligent_search"@ != "structure"@,
        "intelligent_search"@ != "embedding"@,
{
    reveal_strlit("analyze");
    reveal_strlit("phrase");
    reveal_strlit("structure");
    reveal_strlit("embedding");
    reveal_strlit("intelligent_search");
    assert("analyze"@[0] != "phrase"@[0]);
    assert("structure"@[0] != "phrase"@[0]);
    assert("structure"@[0] != "analyze"@[0]);
    assert("embedding"@[0] != "phrase"@[0]);
    assert("embedding"@[0] != "analyze"@[0]);
    assert("embedding"@[0] != "structure"@[0]);
    assert("intelligent_search"@[0] != "phrase"@[0]);
    assert("intelligent_search"@[0] != "analyze"@[0]);
    assert("intelligent_search"@[0] != "structure"@[0]);
    assert("intelligent_search"@[0] != "embedding"@[0]);
}

fn copy_opt(s: &Option<String>) -> (r: Option<String>)
    ensures
        s is None ==> r is None,
        s is Some ==> (r is Some && r.unwrap()@ == s.unwrap()@),
{
    match s {
        Some(x) => Some(owned(x.as_str())),
        None => None,
    }
}

/// The settings shown before anything is stored: one profile "环境变量"
/// with the environment's base URL (the OpenAI one by default), its model
/// ids and key, and the environment's choice for each task, in the order
/// of `env_task_keys`.
pub open spec fn env_backed(r: AiSettingsResponse, env: EnvProvider) -> bool {
    &&& r.profiles@.len() == 1
    &&& r.profiles@[0].id is None
    &&& r.profiles@[0].name@ == "环境变量"@
    &&& r.profiles@[0].base_url@ == (match env.base_url {
        Some(u) => u@,
        None => "https://api.openai.com/v1"@,
    })
    &&& env_ids_ok(str_views(r.profiles@[0].model_ids@), env.models)
    &&& r.profiles@[0].is_default
    &&& r.profiles@[0].api_key_set == (env.api_key is Some && env.api_key.unwrap()@.len() > 0)
    &&& env.api_key is None ==> r.profiles@[0].api_key_preview is None
    &&& env.api_key is Some ==> (match key_preview(env.api_key.unwrap()@) {
        Some(p) => r.profiles@[0].api_key_preview is Some && r.profiles@[0].api_key_preview.unwrap()@ == p,
        None => r.profiles@[0].api_key_preview is None,
    })
    &&& r.task_settings@.len() == 5
    &&& forall|k: int| 0 <= k < 5 ==> (#[trigger] r.task_settings@[k]).task_key@ == env_task_keys()[k]
    &&& forall|k: int| 0 <= k < 5 ==> env_task_ok(#[trigger] r.task_settings@[k], env.models)
}

pub fn env_backed_settings(env: &EnvProvider) -> (r: AiSettingsResponse)
    ensures
        env_backed(r, *env),
{
    let name = "环境变量";
    let base_url = match &env.base_url {
        Some(u) => owned(u.as_str()),
        None => owned("https://api.openai.com/v1"),
    };
    let (api_key_set, preview) = match &env.api_key {
        Some(k) => (chars_of(k.as_str()).len() > 0, api_key_preview(k.as_str())),
        None => (false, None),
    };
    let profile = AiProviderProfileView {
        id: None,
        name: owned(name),
        base_url,
        model_ids: env_model_ids(&env.models),
        is_default: true,
        api_key_set,
        api_key_preview: preview,
    };
    let mut profiles: Vec<AiProviderProfileView> = Vec::new();
    profiles.push(profile);
    let mut tasks: Vec<AiTaskModelSettingView> = Vec::new();
    tasks.push(direct_task("analyze", name, env.models.analyze.as_str()));
    tasks.push(
        AiTaskModelSettingView {
            task_key: owned("phrase"),
            provider_name: None,
            model_id: None,
            inherit_task_key: Some(owned("analyze")),
        },
    );
    tasks.push(direct_task("structure", name, env.models.structure.as_str()));
    tasks.push(direct_task("embedding", name, env.models.embedding.as_str()));
    tasks.push(direct_task("intelligent_search", name, env.models.intelligent_search.as_str()));
    proof {
        lemma_task_keys_distinct();
        reveal_strlit("环境变量");
        assert(env_task_ok(tasks@[0], env.models));
        assert(env_task_ok(tasks@[1], env.models));
        assert(env_task_ok(tasks@[2], env.models));
        assert(env_task_ok(tasks@[3], env.models));
        assert(env_task_ok(tasks@[4], env.models));
    }
    AiSettingsResponse { profiles, task_settings: tasks }
}

/// The stored task choices, then the environment's choice for each task
/// that has none stored.
pub open spec fn filled_keys(stored: Seq<Seq<char>>) -> Seq<Seq<char>> {
    stored + crate::text::keep(env_task_keys(), |k: Seq<char>| !stored.contains(k))
}

pub fn fill_missing_tasks(task_settings: Vec<AiTaskModelSettingView>, env: &EnvProvider) -> (r: Vec<
    AiTaskModelSettingView,
>)
    ensures
        r@.map_values(|t: AiTaskModelSettingView| t.task_key@) == filled_keys(
            task_settings@.map_values(|t: AiTaskModelSettingView| t.task_key@),
        ),
        forall|k: int| 0 <= k < task_settings@.len() ==> #[trigger] r@[k] == task_settings@[k],
        forall|k: int| task_settings@.len() <= k < r@.len() ==> env_task_ok(#[trigger] r@[k], env.models),
{
    let ghost stored = task_settings@.map_values(|t: AiTaskModelSettingView| t.task_key@);
    let ghost orig = task_settings@;
    let keys = crate::text::chars_of_all(&map_keys(&task_settings));
    let fallback = env_backed_settings(env);
    let mut out = task_settings;
    let mut rest = fallback.task_settings;
    let ghost fb = rest@;
    let ghost fkeys = env_task_keys();
    let mut d: usize = 0;
    assert(fb.skip(0) =~= fb);
    while rest.len() > 0
        invariant
            d + rest@.len() == 5,
            fb.len() == 5,
            rest@ == fb.skip(d as int),
            forall|k: int| 0 <= k < 5 ==> (#[trigger] fb[k]).task_key@ == fkeys[k],
            fkeys == env_task_keys(),
            views(keys@) == stored,
            out@.len() >= orig.len(),
            forall|k: int| 0 <= k < orig.len() ==> #[trigger] out@[k] == orig[k],
            forall|k: int| 0 <= k < 5 ==> env_task_ok(#[trigger] fb[k], env.models),
            forall|k: int| orig.len() <= k < out@.len() ==> env_task_ok(#[trigger] out@[k], env.models),
            out@.map_values(|t: AiTaskModelSettingView| t.task_key@) == stored + crate::text::keep(
                fkeys.take(d as int),
                |k: Seq<char>| !stored.contains(k),
            ),
        decreases rest@.len(),
    {
        let t = rest.remove(0);
        assert(fb[d as int] == t);
        assert(rest@ =~= fb.skip(d + 1));
        assert(fkeys.take(d + 1).drop_last() =~= fkeys.take(d as int));
        assert(fkeys.take(d + 1).last() == t.task_key@);
        let tk = chars_of(t.task_key.as_str());
        let mut found = false;
        let mut j: usize = 0;
        while j < keys.len()
            invariant
                0 <= j <= keys@.len(),
                found <==> exists|m: int| 0 <= m < j && views(keys@)[m] == tk@,
            decreases keys@.len() - j,
        {
            assert(views(keys@)[j as int] == keys@[j as int]@);
            if same(&keys[j], &tk) {
                found = true;
            }
            j = j + 1;
        }
        assert(found <==> stored.contains(tk@)) by {
            if stored.contains(tk@) {
                let m = choose|m: int| 0 <= m < stored.len() && stored[m] == tk@;
                assert(views(keys@)[m] == tk@);
            }
        }
        if !found {
            let ghost before = out@;
            out.push(t);
            assert(out@.map_values(|t: AiTaskModelSettingView| t.task_key@) =~= before.map_values(
                |t: AiTaskModelSettingView| t.task_key@,
            ).push(tk@));
            assert forall|k: int| 0 <= k < orig.len() implies #[trigger] out@[k] == orig[k] by {
                assert(out@[k] == before[k]);
            }
        }
        d = d + 1;
    }
    assert(fkeys.take(5) =~= fkeys);
    out
}

fn map_keys(ts: &Vec<AiTaskModelSettingView>) -> (r: Vec<String>)
    ensures
        str_views(r@) == ts@.map_values(|t: AiTaskModelSettingView| t.task_key@),
{
    let mut r: Vec<String> = Vec::new();
    let mut i: usize = 0;
    while i < ts.len()
        invariant
            0 <= i <= ts@.len(),
            str_views(r@) == ts@.take(i as int).map_values(|t: AiTaskModelSettingView| t.task_key@),
        decreases ts@.len() - i,
    {
        let ghost before = r@;
        let s = owned(ts[i].task_key.as_str());
        let ghost sv = s@;
        r.push(s);
        assert(str_views(r@) =~= str_views(before).push(sv));
        assert(str_views(r@) =~= ts@.take(i + 1).map_values(|t: AiTaskModelSettingView| t.task_key@));
        i = i + 1;
    }
    assert(ts@.take(ts@.len() as int) =~= ts@);
    r
}

/// The key a model test uses: the request's key when it is not blank;
/// else, when the request names a stored profile (`profile_key` is the key
/// of the profile found), that key unless it is empty; else the
/// environment's key when it is not blank. All keys are trimmed except a
/// stored profile's.
pub fn test_api_key(
    request_key: Option<&str>,
    profile_key: Option<&str>,
    env_key: Option<&str>,
) -> (r: Option<String>)
    ensures
        request_key is Some && trim(request_key.unwrap()@).len() > 0 ==> (r is Some && r.unwrap()@
            == trim(request_key.unwrap()@)),
        !(request_key is Some && trim(request_key.unwrap()@).len() > 0) && profile_key is Some ==> (
        if profile_key.unwrap()@.len() > 0 {
            r is Some && r.unwrap()@ == profile_key.unwrap()@
        } else {
            r is None
        }),
        !(request_key is Some && trim(request_key.unwrap()@).len() > 0) && profile_key is None ==> (
        if env_key is Some && trim(env_key.unwrap()@).len() > 0 {
            r is Some && r.unwrap()@ == trim(env_key.unwrap()@)
        } else {
            r is None
        }),
{
    match request_key {
        Some(k) => if !is_blank(k) {
            return Some(trim_str(k));
        },
        None => {},
    }
    match profile_key {
        Some(k) => {
            if chars_of(k).len() > 0 {
                return Some(owned(k));
            } else {
                return None;
            }
        },
        None => {},
    }
    match env_key {
        Some(k) => if !is_blank(k) {
            Some(trim_str(k))
        } else {
            None
        },
        None => None,
    }
}

/// Before the first save, the environment's key (trimmed, when not blank)
/// goes to the first new default profile that has no key.
pub fn hydrate_env_api_key(profiles_stored: bool, env_key: Option<&str>, request: &mut AiSettingsUpdateRequest)
    ensures
        final(request).task_settings == old(request).task_settings,
        final(request).profiles@.len() == old(request).profiles@.len(),
        (profiles_stored || env_key is None || trim(env_key.unwrap()@).len() == 0) ==> final(request).profiles@
            == old(request).profiles@,
        !(profiles_stored || env_key is None || trim(env_key.unwrap()@).len() == 0) ==> forall|k: int|
            0 <= k < old(request).profiles@.len() ==> {
                let p = old(request).profiles@[k];
                let first = p.id is None && p.is_default && p.api_key is None && forall|j: int|
                    0 <= j < k ==> !(old(request).profiles@[j].id is None
                        && old(request).profiles@[j].is_default
                        && old(request).profiles@[j].api_key is None);
                if first {
                    (#[trigger] final(request).profiles@[k]).api_key is Some
                        && final(request).profiles@[k].api_key.unwrap()@ == trim(env_key.unwrap()@)
                        && final(request).profiles@[k].id == p.id && final(request).profiles@[k].name == p.name
                        && final(request).profiles@[k].base_url == p.base_url
                        && final(request).profiles@[k].model_ids == p.model_ids
                        && final(request).profiles@[k].is_default == p.is_default
                } else {
                    final(request).profiles@[k] == p
                }
            },
{
    if profiles_stored {
        return;
    }
    let key = match env_key {
        Some(k) => if is_blank(k) {
            return;
        } else {
            trim_str(k)
        },
        None => {
            return;
        },
    };
    let n = request.profiles.len();
    let mut i: usize = 0;
    while i < n
        invariant_except_break
            0 <= i <= n,
            n == request.profiles@.len(),
            request.profiles == old(request).profiles,
            request.task_settings == old(request).task_settings,
            forall|j: int| 0 <= j < i ==> !(old(request).profiles@[j].id is None
                && old(request).profiles@[j].is_default && old(request).profiles@[j].api_key is None),
        ensures
            0 <= i <= n,
            n == request.profiles@.len(),
            request.profiles == old(request).profiles,
            request.task_settings == old(request).task_settings,
            forall|j: int| 0 <= j < i ==> !(old(request).profiles@[j].id is None
                && old(request).profiles@[j].is_default && old(request).profiles@[j].api_key is None),
            i < n ==> (old(request).profiles@[i as int].id is None && old(request).profiles@[i as int].is_default
                && old(request).profiles@[i as int].api_key is None),
        decreases n - i,
    {
        let p = &request.profiles[i];
        if p.id.is_none() && p.is_default && p.api_key.is_none() {
            break;
        }
        i = i + 1;
    }
    if i < n {
        let mut profile = request.profiles.remove(i);
        profile.api_key = Some(key);
        request.profiles.insert(i, profile);
    }
}

/// How a stored profile is shown: its key only as set or not, and
/// previewed.
pub open spec fn shows_profile(r: AiProviderProfileView, p: AiProviderProfileRecord) -> bool {
    &&& r.id == Some(p.id)
    &&& r.name@ == p.name@
    &&& r.base_url@ == p.base_url@
    &&& str_views(r.model_ids@) == str_views(p.model_ids@)
    &&& r.is_default == p.is_default
    &&& r.api_key_set == (p.api_key@.len() > 0)
    &&& (match key_preview(p.api_key@) {
        Some(x) => r.api_key_preview is Some && r.api_key_preview.unwrap()@ == x,
        None => r.api_key_preview is None,
    })
}

pub fn profile_view(p: &AiProviderProfileRecord) -> (r: AiProviderProfileView)
    ensures
        shows_profile(r, *p),
{
    AiProviderProfileView {
        id: Some(p.id),
        name: owned(p.name.as_str()),
        base_url: owned(p.base_url.as_str()),
        model_ids: crate::model_a::copy_strings(&p.model_ids),
        is_default: p.is_default,
        api_key_set: chars_of(p.api_key.as_str()).len() > 0,
        api_key_preview: api_key_preview(p.api_key.as_str()),
    }
}

/// The name of the last profile with the id.
pub open spec fn provider_name_of(ps: Seq<AiProviderProfileRecord>, id: i64) -> Option<Seq<char>>
    decreases ps.len(),
{
    if ps.len() == 0 {
        None
    } else if ps.last().id == id {
        Some(ps.last().name@)
    } else {
        provider_name_of(ps.drop_last(), id)
    }
}

fn provider_name(ps: &Vec<AiProviderProfileRecord>, id: i64) -> (r: Option<String>)
    ensures
        r is None <==> provider_name_of(ps@, id) is None,
        r is Some ==> provider_name_of(ps@, id) == Some(r.unwrap()@),
{
    let mut i: usize = ps.len();
    assert(ps@.take(ps@.len() as int) =~= ps@);
    while i > 0
        invariant
            0 <= i <= ps@.len(),
            provider_name_of(ps@, id) == provider_name_of(ps@.take(i as int), id),
        decreases i,
    {
        assert(ps@.take(i as int).drop_last() =~= ps@.take(i - 1));
        assert(ps@.take(i as int).last() == ps@[i - 1]);
        if ps[i - 1].id == id {
            return Some(owned(ps[i - 1].name.as_str()));
        }
        i = i - 1;
    }
    None
}

/// How a stored task choice is shown, with the name of its provider.
pub open spec fn shows_task(
    r: AiTaskModelSettingView,
    setting: AiTaskModelSettingRecord,
    profiles: Seq<AiProviderProfileRecord>,
) -> bool {
    &&& r.task_key@ == setting.task_key@
    &&& setting.provider_id is None ==> r.provider_name is None
    &&& setting.provider_id is Some ==> (match provider_name_of(profiles, setting.provider_id.unwrap()) {
        Some(n) => r.provider_name is Some && r.provider_name.unwrap()@ == n,
        None => r.provider_name is None,
    })
    &&& setting.model_id is None ==> r.model_id is None
    &&& setting.model_id is Some ==> (r.model_id is Some && r.model_id.unwrap()@ == setting.model_id.unwrap()@)
    &&& setting.inherit_task_key is None ==> r.inherit_task_key is None
    &&& setting.inherit_task_key is Some ==> (r.inherit_task_key is Some && r.inherit_task_key.unwrap()@
        == setting.inherit_task_key.unwrap()@)
}

pub fn task_view(setting: &AiTaskModelSettingRecord, profiles: &Vec<AiProviderProfileRecord>) -> (r:
    AiTaskModelSettingView)
    ensures
        shows_task(r, *setting, profiles@),
{
    AiTaskModelSettingView {
        task_key: owned(setting.task_key.as_str()),
        provider_name: match setting.provider_id {
            Some(id) => provider_name(profiles, id),
            None => None,
        },
        model_id: copy_opt(&setting.model_id),
        inherit_task_key: copy_opt(&setting.inherit_task_key),
    }
}

/// The settings shown: the environment's when no profile is stored; else
/// the stored profiles and task choices, completed by the environment's
/// choices for the tasks without one.
pub fn get_ai_settings(
    profiles: &Vec<AiProviderProfileRecord>,
    settings: &Vec<AiTaskModelSettingRecord>,
    env: &EnvProvider,
) -> (r: AiSettingsResponse)
    ensures
        profiles@.len() == 0 ==> env_backed(r, *env),
        profiles@.len() > 0 ==> r.profiles@.len() == profiles@.len() && (forall|k: int|
            0 <= k < profiles@.len() ==> shows_profile(#[trigger] r.profiles@[k], profiles@[k]))
            && r.task_settings@.map_values(|t: AiTaskModelSettingView| t.task_key@) == filled_keys(
            settings@.map_values(|t: AiTaskModelSettingRecord| t.task_key@),
        ) && (forall|k: int|
            0 <= k < settings@.len() ==> shows_task(#[trigger] r.task_settings@[k], settings@[k], profiles@))
            && (forall|k: int|
            settings@.len() <= k < r.task_settings@.len() ==> env_task_ok(#[trigger] r.task_settings@[k], env.models)),
{
    if profiles.len() == 0 {
        return env_backed_settings(env);
    }
    let mut views_out: Vec<AiProviderProfileView> = Vec::new();
    let mut i: usize = 0;
    while i < profiles.len()
        invariant
            0 <= i <= profiles@.len(),
            views_out@.len() == i,
            forall|k: int| 0 <= k < i ==> shows_profile(#[trigger] views_out@[k], profiles@[k]),
        decreases profiles@.len() - i,
    {
        views_out.push(profile_view(&profiles[i]));
        i = i + 1;
    }
    let mut tasks: Vec<AiTaskModelSettingView> = Vec::new();
    let mut j: usize = 0;
    while j < settings.len()
        invariant
            0 <= j <= settings@.len(),
            tasks@.map_values(|t: AiTaskModelSettingView| t.task_key@) == settings@.take(j as int).map_values(
                |t: AiTaskModelSettingRecord| t.task_key@,
            ),
            tasks@.len() == j,
            forall|k: int| 0 <= k < j ==> shows_task(#[trigger] tasks@[k], settings@[k], profiles@),
        decreases settings@.len() - j,
    {
        let ghost before = tasks@;
        let t = task_view(&settings[j], profiles);
        let ghost tk = t.task_key@;
        tasks.push(t);
        assert(tasks@.map_values(|t: AiTaskModelSettingView| t.task_key@) =~= before.map_values(
            |t: AiTaskModelSettingView| t.task_key@,
        ).push(tk));
        assert(tasks@.map_values(|t: AiTaskModelSettingView| t.task_key@) =~= settings@.take(j + 1).map_values(
            |t: AiTaskModelSettingRecord| t.task_key@,
        ));
        j = j + 1;
    }
    assert(settings@.take(settings@.len() as int) =~= settings@);
    AiSettingsResponse { profiles: views_out, task_settings: fill_missing_tasks(tasks, env) }
}

/// The outcome of a model test.
#[derive(Debug)]
pub struct AiModelTestResponse {
    pub ok: bool,
    pub message: String,
}

pub fn test_response(ok: bool, message: &str) -> (r: AiModelTestResponse)
    ensures
        r.ok == ok,
        r.message@ == message@,
{
    AiModelTestResponse { ok, message: owned(message) }
}

/// The answer to a model test that failed with the given error text.
pub fn test_failure(error: &str) -> (r: AiModelTestResponse)
    ensures
        !r.ok,
        r.message@ == "测试失败："@ + error@,
{
    let mut m = chars_of("测试失败：");
    extend_str(&mut m, error);
    AiModelTestResponse { ok: false, message: string_of(&m) }
}

/// The structure model named in the environment: the first of the two
/// settings that is not blank, else "minimax-m2.5".
pub fn env_structure_model(structure_setting: Option<&str>, archive_setting: Option<&str>) -> (r: String)
    ensures
        structure_setting is Some && trim(structure_setting.unwrap()@).len() > 0 ==> r@
            == structure_setting.unwrap()@,
        !(structure_setting is Some && trim(structure_setting.unwrap()@).len() > 0) && archive_setting is Some
            && trim(archive_setting.unwrap()@).len() > 0 ==> r@ == archive_setting.unwrap()@,
        !(structure_setting is Some && trim(structure_setting.unwrap()@).len() > 0) && !(archive_setting is Some
            && trim(archive_setting.unwrap()@).len() > 0) ==> r@ == "minimax-m2.5"@,
{
    match structure_setting {
        Some(m) => if !is_blank(m) {
            return owned(m);
        },
        None => {},
    }
    match archive_setting {
        Some(m) => if !is_blank(m) {
            return owned(m);
        },
        None => {},
    }
    owned("minimax-m2.5")
}

/// The environment's model for a task (the phrase task uses the analysis
/// model).
pub open spec fn env_model_of(task: AiModelTask, m: EnvModels) -> Seq<char> {
    match task {
        AiModelTask::Analyze | AiModelTask::Phrase => m.analyze@,
        AiModelTask::Structure => m.structure@,
        AiModelTask::Embedding => m.embedding@,
        AiModelTask::IntelligentSearch => m.intelligent_search@,
    }
}

pub fn env_model(task: AiModelTask, models: &EnvModels) -> (r: ResolvedAiModel)
    ensures
        r.client == AiClientChoice::Environment,
        r.model@ == env_model_of(task, *models),
        !r.persisted,
{
    let model = match task {
        AiModelTask::Analyze | AiModelTask::Phrase => owned(models.analyze.as_str()),
        AiModelTask::Structure => owned(models.structure.as_str()),
        AiModelTask::Embedding => owned(models.embedding.as_str()),
        AiModelTask::IntelligentSearch => owned(models.intelligent_search.as_str()),
    };
    ResolvedAiModel { client: AiClientChoice::Environment, model, persisted: false }
}

/// The model for a task: the environment's when no profile is stored or the
/// task has no stored setting; else the stored one, or the error found
/// while following the settings.
pub fn resolve_task_model(
    task: AiModelTask,
    profiles: &Vec<AiProviderProfileRecord>,
    settings: &Vec<AiTaskModelSettingRecord>,
    models: &EnvModels,
) -> (r: Result<ResolvedAiModel, String>)
    ensures
        profiles@.len() == 0 ==> (r is Ok && r->Ok_0.client == AiClientChoice::Environment
            && r->Ok_0.model@ == env_model_of(task, *models) && !r->Ok_0.persisted),
        profiles@.len() > 0 ==> (match resolution(task, profiles@, settings@, 0) {
            Err(e) => r is Err && r->Err_0@ == e,
            Ok(None) => r is Ok && r->Ok_0.client == AiClientChoice::Environment
                && r->Ok_0.model@ == env_model_of(task, *models) && !r->Ok_0.persisted,
            Ok(Some(found)) => r is Ok && r->Ok_0.persisted && r->Ok_0.model@ == found.1
                && r->Ok_0.client == (AiClientChoice::Profile {
                    api_key: profiles@[found.0].api_key,
                    base_url: profiles@[found.0].base_url,
                }),
        }),
{
    if profiles.len() == 0 {
        return Ok(env_model(task, models));
    }
    match resolve_persisted_setting(task, profiles, settings, 0) {
        Err(e) => Err(e),
        Ok(Some(m)) => Ok(m),
        Ok(None) => Ok(env_model(task, models)),
    }
}

} // verus!
