//! Which model serves which task: task keys, persisted settings, and checks
//! on a settings update.

use vstd::prelude::*;
use crate::text::{
    ascii_lower, ascii_lower_exec, chars_of, contains, contains_exec, extend, extend_str, owned,
    same, signed_decimal, signed_decimal_exec, slice_of, string_of, trim, trim_exec, trim_str,
};

verus! {

/// A task a model is chosen for.
#[derive(Debug, Clone, Copy, PartialEq, Eq, Structural)]
pub enum AiModelTask {
    Analyze,
    Phrase,
    Structure,
    Embedding,
    IntelligentSearch,
}

pub open spec fn task_key(t: AiModelTask) -> Seq<char> {
    match t {
        AiModelTask::Analyze => "analyze"@,
        AiModelTask::Phrase => "phrase"@,
        AiModelTask::Structure => "structure"@,
        AiModelTask::Embedding => "embedding"@,
        AiModelTask::IntelligentSearch => "intelligent_search"@,
    }
}

pub open spec fn task_from_key(k: Seq<char>) -> Option<AiModelTask> {
    if k == "analyze"@ {
        Some(AiModelTask::Analyze)
    } else if k == "phrase"@ {
        Some(AiModelTask::Phrase)
    } else if k == "structure"@ {
        Some(AiModelTask::Structure)
    } else if k == "embedding"@ {
        Some(AiModelTask::Embedding)
    } else if k == "intelligent_search"@ {
        Some(AiModelTask::IntelligentSearch)
    } else {
        None
    }
}

impl AiModelTask {
    /// The task's key in stored settings.
    pub fn key(self) -> (r: &'static str)
        ensures
            r@ == task_key(self),
    {
        match self {
            AiModelTask::Analyze => "analyze",
            AiModelTask::Phrase => "phrase",
            AiModelTask::Structure => "structure",
            AiModelTask::Embedding => "embedding",
            AiModelTask::IntelligentSearch => "intelligent_search",
        }
    }

    /// The task a stored key names.
    pub fn from_key(key: &str) -> (r: Option<AiModelTask>)
        ensures
            r == task_from_key(key@),
    {
        let k = chars_of(key);
        if same(&k, &chars_of("analyze")) {
            Some(AiModelTask::Analyze)
        } else if same(&k, &chars_of("phrase")) {
            Some(AiModelTask::Phrase)
        } else if same(&k, &chars_of("structure")) {
            Some(AiModelTask::Structure)
        } else if same(&k, &chars_of("embedding")) {
            Some(AiModelTask::Embedding)
        } else if same(&k, &chars_of("intelligent_search")) {
            Some(AiModelTask::IntelligentSearch)
        } else {
            None
        }
    }
}

/// A task's key names the task again, and different tasks have different
/// keys.
pub proof fn law_task_key_round_trip(t: AiModelTask, u: AiModelTask)
    ensures
        task_from_key(task_key(t)) == Some(t),
        t != u ==> task_key(t) != task_key(u),
{
    reveal_strlit("analyze");
    reveal_strlit("phrase");
    reveal_strlit("structure");
    reveal_strlit("embedding");
    reveal_strlit("intelligent_search");
    assert("analyze"@[0] != "phrase"@[0]);
    assert("analyze"@[0] != "structure"@[0]);
    assert("analyze"@[0] != "embedding"@[0]);
    assert("analyze"@[0] != "intelligent_search"@[0]);
    assert("phrase"@[0] != "structure"@[0]);
    assert("phrase"@[0] != "embedding"@[0]);
    assert("phrase"@[0] != "intelligent_search"@[0]);
    assert("structure"@[0] != "embedding"@[0]);
    assert("structure"@[0] != "intelligent_search"@[0]);
    assert("embedding"@[0] != "intelligent_search"@[0]);
}

// ---------------------------------------------------------------------------
// Resolving a task's model from the stored settings
// ---------------------------------------------------------------------------

/// A stored provider profile.
#[derive(Debug)]
pub struct AiProviderProfileRecord {
    pub id: i64,
    pub name: String,
    pub base_url: String,
    pub api_key: String,
    pub model_ids: Vec<String>,
    pub is_default: bool,
}

/// A stored model choice for a task.
#[derive(Debug)]
pub struct AiTaskModelSettingRecord {
    pub task_key: String,
    pub provider_id: Option<i64>,
    pub model_id: Option<String>,
    pub inherit_task_key: Option<String>,
}

/// The client a resolved model is called through.
#[derive(Debug)]
pub enum AiClientChoice {
    /// The client configured from the environment.
    Environment,
    /// A client for a stored provider profile.
    Profile { api_key: String, base_url: String },
}

/// The model chosen for a task and the client to call it through.
#[derive(Debug)]
pub struct ResolvedAiModel {
    pub client: AiClientChoice,
    pub model: String,
    pub persisted: bool,
}

/// The first stored setting for the key.
pub open spec fn setting_index(ss: Seq<AiTaskModelSettingRecord>, key: Seq<char>, i: int) -> Option<int>
    decreases ss.len() - i,
{
    if i < 0 || i >= ss.len() {
        None
    } else if ss[i].task_key@ == key {
        Some(i)
    } else {
        setting_index(ss, key, i + 1)
    }
}

/// The first profile with the id.
pub open spec fn profile_index(ps: Seq<AiProviderProfileRecord>, id: i64, i: int) -> Option<int>
    decreases ps.len() - i,
{
    if i < 0 || i >= ps.len() {
        None
    } else if ps[i].id == id {
        Some(i)
    } else {
        profile_index(ps, id, i + 1)
    }
}

/// What resolving a task from the stored settings gives: `Ok(None)` without
/// a setting; the inherited task's result for an inheriting setting (at
/// most two levels deep); otherwise the setting's provider and trimmed
/// model, or the error that names what is missing.
pub open spec fn resolution(
    task: AiModelTask,
    ps: Seq<AiProviderProfileRecord>,
    ss: Seq<AiTaskModelSettingRecord>,
    depth: nat,
) -> Result<Option<(int, Seq<char>)>, Seq<char>>
    decreases 3 - depth,
{
    if depth > 2 {
        Err("AI model setting inheritance is too deep"@)
    } else {
        match setting_index(ss, task_key(task), 0) {
            None => Ok(None),
            Some(k) => {
                let st = ss[k];
                match st.inherit_task_key {
                    Some(inh) => match task_from_key(inh@) {
                        None => Err("unsupported inherited AI task key: "@ + inh@),
                        Some(t2) => resolution(t2, ps, ss, depth + 1),
                    },
                    None => match st.provider_id {
                        None => Err("AI task "@ + task_key(task) + " is missing provider"@),
                        Some(pid) => match profile_index(ps, pid, 0) {
                            None => Err("AI provider profile not found: "@ + signed_decimal(pid as int)),
                            Some(pi) => match st.model_id {
                                Some(m) => if trim(m@).len() > 0 {
                                    Ok(Some((pi, trim(m@))))
                                } else {
                                    Err("AI task "@ + task_key(task) + " is missing model"@)
                                },
                                None => Err("AI task "@ + task_key(task) + " is missing model"@),
                            },
                        },
                    },
                }
            },
        }
    }
}

fn find_setting(ss: &Vec<AiTaskModelSettingRecord>, key: &str) -> (r: Option<usize>)
    ensures
        r matches Some(k) ==> setting_index(ss@, key@, 0) == Some(k as int) && k < ss@.len(),
        r is None ==> setting_index(ss@, key@, 0) is None,
{
    let kv = chars_of(key);
    let mut i: usize = 0;
    while i < ss.len()
        invariant
            0 <= i <= ss@.len(),
            kv@ == key@,
            setting_index(ss@, key@, 0) == setting_index(ss@, key@, i as int),
        decreases ss@.len() - i,
    {
        if same(&chars_of(ss[i].task_key.as_str()), &kv) {
            return Some(i);
        }
        i = i + 1;
    }
    None
}

fn find_profile(ps: &Vec<AiProviderProfileRecord>, id: i64) -> (r: Option<usize>)
    ensures
        r matches Some(k) ==> profile_index(ps@, id, 0) == Some(k as int) && k < ps@.len(),
        r is None ==> profile_index(ps@, id, 0) is None,
{
    let mut i: usize = 0;
    while i < ps.len()
        invariant
            0 <= i <= ps@.len(),
            profile_index(ps@, id, 0) == profile_index(ps@, id, i as int),
        decreases ps@.len() - i,
    {
        if ps[i].id == id {
            return Some(i);
        }
        i = i + 1;
    }
    None
}

fn task_message(head: &str, task: AiModelTask, tail: &str) -> (r: String)
    ensures
        r@ == head@ + task_key(task) + tail@,
{
    let mut v = chars_of(head);
    extend_str(&mut v, task.key());
    extend_str(&mut v, tail);
    string_of(&v)
}

/// The model stored for a task, following inheritance; `Ok(None)` when the
/// task has no stored setting.
pub fn resolve_persisted_setting(
    task: AiModelTask,
    profiles: &Vec<AiProviderProfileRecord>,
    settings: &Vec<AiTaskModelSettingRecord>,
    depth: usize,
) -> (r: Result<Option<ResolvedAiModel>, String>)
    ensures
        match resolution(task, profiles@, settings@, depth as nat) {
            Err(e) => r matches Err(x) && x@ == e,
            Ok(None) => r matches Ok(None),
            Ok(Some(found)) => r matches Ok(Some(m)) && m.persisted && m.model@ == found.1
                && m.client == (AiClientChoice::Profile {
                    api_key: profiles@[found.0].api_key,
                    base_url: profiles@[found.0].base_url,
                }),
        },
    decreases 3 - depth,
{
    if depth > 2 {
        return Err(owned("AI model setting inheritance is too deep"));
    }
    let k = match find_setting(settings, task.key()) {
        None => {
            return Ok(None);
        },
        Some(k) => k,
    };
    let st = &settings[k];
    match &st.inherit_task_key {
        Some(inh) => {
            return match AiModelTask::from_key(inh.as_str()) {
                None => {
                    let mut v = chars_of("unsupported inherited AI task key: ");
                    extend_str(&mut v, inh.as_str());
                    Err(string_of(&v))
                },
                Some(t2) => resolve_persisted_setting(t2, profiles, settings, depth + 1),
            };
        },
        None => {},
    }
    let pid = match st.provider_id {
        None => {
            return Err(task_message("AI task ", task, " is missing provider"));
        },
        Some(pid) => pid,
    };
    let pi = match find_profile(profiles, pid) {
        None => {
            let mut v = chars_of("AI provider profile not found: ");
            let d = signed_decimal_exec(pid);
            extend(&mut v, &d);
            return Err(string_of(&v));
        },
        Some(pi) => pi,
    };
    let model = match &st.model_id {
        Some(m) => {
            let t = trim_str(m.as_str());
            if t.as_str().is_empty() {
                return Err(task_message("AI task ", task, " is missing model"));
            }
            t
        },
        None => {
            return Err(task_message("AI task ", task, " is missing model"));
        },
    };
    let p = &profiles[pi];
    Ok(
        Some(
            ResolvedAiModel {
                client: AiClientChoice::Profile {
                    api_key: p.api_key.clone(),
                    base_url: p.base_url.clone(),
                },
                model,
                persisted: true,
            },
        ),
    )
}

// ---------------------------------------------------------------------------
// Checking a settings update
// ---------------------------------------------------------------------------

/// A provider profile in a settings update.
#[derive(Debug)]
pub struct AiProviderProfileInput {
    pub id: Option<i64>,
    pub name: String,
    pub base_url: String,
    pub api_key: Option<String>,
    pub model_ids: Vec<String>,
    pub is_default: bool,
}

/// A task's model choice in a settings update.
#[derive(Debug)]
pub struct AiTaskModelSettingInput {
    pub task_key: String,
    pub provider_name: Option<String>,
    pub model_id: Option<String>,
    pub inherit_task_key: Option<String>,
}

/// A settings update.
#[derive(Debug)]
pub struct AiSettingsUpdateRequest {
    pub profiles: Vec<AiProviderProfileInput>,
    pub task_settings: Vec<AiTaskModelSettingInput>,
}

pub open spec fn allowed_task_keys() -> Seq<Seq<char>> {
    seq!["analyze"@, "phrase"@, "structure"@, "embedding"@, "intelligent_search"@]
}

pub open spec fn default_count(ps: Seq<AiProviderProfileInput>) -> nat
    decreases ps.len(),
{
    if ps.len() == 0 {
        0
    } else {
        default_count(ps.drop_last()) + if ps.last().is_default {
            1nat
        } else {
            0nat
        }
    }
}

/// Whether a trimmed provider name is among the profiles' trimmed names.
pub open spec fn names_profile(ps: Seq<AiProviderProfileInput>, name: Seq<char>) -> bool {
    exists|i: int| 0 <= i < ps.len() && trim(#[trigger] ps[i].name@) == name
}

/// The first problem of the task settings from index `i` on: an unknown or
/// repeated task key, inheritance other than phrase from analyze, or a
/// missing or unknown provider or model.
pub open spec fn settings_error(
    ss: Seq<AiTaskModelSettingInput>,
    ps: Seq<AiProviderProfileInput>,
    i: int,
) -> Option<Seq<char>>
    decreases ss.len() - i,
{
    if i < 0 || i >= ss.len() {
        None
    } else {
        let k = trim(ss[i].task_key@);
        if !allowed_task_keys().contains(k) {
            Some("unsupported AI task key: "@ + k)
        } else if exists|j: int| 0 <= j < i && trim(#[trigger] ss[j].task_key@) == k {
            Some("duplicate AI task key: "@ + k)
        } else {
            match ss[i].inherit_task_key {
                Some(inh) => if k != "phrase"@ || trim(inh@) != "analyze"@ {
                    Some("only phrase may inherit analyze in the initial settings schema"@)
                } else {
                    settings_error(ss, ps, i + 1)
                },
                None => match ss[i].provider_name {
                    None => Some("provider_name is required for "@ + k),
                    Some(p) => if !names_profile(ps, trim(p@)) {
                        Some("unknown provider profile: "@ + trim(p@))
                    } else {
                        match ss[i].model_id {
                            None => Some("model_id is required for "@ + k),
                            Some(m) => if trim(m@).len() == 0 {
                                Some("model_id is required for "@ + k)
                            } else {
                                settings_error(ss, ps, i + 1)
                            },
                        }
                    },
                },
            }
        }
    }
}

/// Why a settings update is refused, or `None`.
pub open spec fn update_error(req: AiSettingsUpdateRequest) -> Option<Seq<char>> {
    let ps = req.profiles@;
    if ps.len() == 0 {
        Some("at least one provider profile is required"@)
    } else if default_count(ps) != 1 {
        Some("exactly one provider profile must be default"@)
    } else {
        settings_error(req.task_settings@, ps, 0)
    }
}

fn message(head: &str, v: &Vec<char>) -> (r: String)
    ensures
        r@ == head@ + v@,
{
    let mut m = chars_of(head);
    extend(&mut m, v);
    string_of(&m)
}

fn is_allowed_key(k: &Vec<char>) -> (r: bool)
    ensures
        r == allowed_task_keys().contains(k@),
{
    let keys = vec![
        chars_of("analyze"),
        chars_of("phrase"),
        chars_of("structure"),
        chars_of("embedding"),
        chars_of("intelligent_search"),
    ];
    let mut i: usize = 0;
    while i < keys.len()
        invariant
            0 <= i <= keys@.len(),
            keys@.len() == 5,
            keys@[0]@ == "analyze"@,
            keys@[1]@ == "phrase"@,
            keys@[2]@ == "structure"@,
            keys@[3]@ == "embedding"@,
            keys@[4]@ == "intelligent_search"@,
            forall|j: int| 0 <= j < i ==> allowed_task_keys()[j] != k@,
        decreases keys@.len() - i,
    {
        if same(&keys[i], k) {
            assert(allowed_task_keys()[i as int] == k@);
            return true;
        }
        i = i + 1;
    }
    assert(!allowed_task_keys().contains(k@)) by {
        if allowed_task_keys().contains(k@) {
            let j = choose|j: int| 0 <= j < 5 && allowed_task_keys()[j] == k@;
            assert(allowed_task_keys()[j] != k@);
        }
    }
    false
}

/// Checks a settings update: at least one profile, exactly one default, and
/// task settings that are each known, given once, and complete.
pub fn validate_update(request: &AiSettingsUpdateRequest) -> (r: Result<(), String>)
    ensures
        match update_error(*request) {
            None => r is Ok,
            Some(e) => r matches Err(x) && x@ == e,
        },
{
    let ps = &request.profiles;
    if ps.len() == 0 {
        return Err(owned("at least one provider profile is required"));
    }
    let mut defaults: usize = 0;
    let mut i: usize = 0;
    while i < ps.len()
        invariant
            0 <= i <= ps@.len(),
            defaults <= i,
            defaults == default_count(ps@.take(i as int)),
        decreases ps@.len() - i,
    {
        assert(ps@.take(i + 1).drop_last() =~= ps@.take(i as int));
        if ps[i].is_default {
            defaults = defaults + 1;
        }
        i = i + 1;
    }
    assert(ps@.take(ps@.len() as int) =~= ps@);
    if defaults != 1 {
        return Err(owned("exactly one provider profile must be default"));
    }
    let mut names: Vec<Vec<char>> = Vec::new();
    let mut n: usize = 0;
    while n < ps.len()
        invariant
            0 <= n <= ps@.len(),
            names@.len() == n,
            forall|j: int| 0 <= j < n ==> #[trigger] names@[j]@ == trim(ps@[j].name@),
        decreases ps@.len() - n,
    {
        names.push(trim_exec(&chars_of(ps[n].name.as_str())));
        n = n + 1;
    }
    let ss = &request.task_settings;
    let mut keys: Vec<Vec<char>> = Vec::new();
    let mut k: usize = 0;
    while k < ss.len()
        invariant
            0 <= k <= ss@.len(),
            ss == &request.task_settings,
            ps == &request.profiles,
            names@.len() == ps@.len(),
            forall|j: int| 0 <= j < ps@.len() ==> #[trigger] names@[j]@ == trim(ps@[j].name@),
            keys@.len() == k,
            forall|j: int| 0 <= j < k ==> #[trigger] keys@[j]@ == trim(ss@[j].task_key@),
            update_error(*request) == settings_error(ss@, ps@, k as int),
        decreases ss@.len() - k,
    {
        let key = trim_exec(&chars_of(ss[k].task_key.as_str()));
        if !is_allowed_key(&key) {
            return Err(message("unsupported AI task key: ", &key));
        }
        let mut dup = false;
        let mut j: usize = 0;
        while j < keys.len()
            invariant
                0 <= j <= keys@.len(),
                dup <==> exists|x: int| 0 <= x < j && #[trigger] keys@[x]@ == key@,
            decreases keys@.len() - j,
        {
            if same(&keys[j], &key) {
                dup = true;
            }
            j = j + 1;
        }
        assert(dup <==> exists|x: int| 0 <= x < k && trim(#[trigger] ss@[x].task_key@) == key@) by {
            if exists|x: int| 0 <= x < k && trim(#[trigger] ss@[x].task_key@) == key@ {
                let x = choose|x: int| 0 <= x < k && trim(#[trigger] ss@[x].task_key@) == key@;
                assert(keys@[x]@ == key@);
            }
        }
        if dup {
            return Err(message("duplicate AI task key: ", &key));
        }
        let st = &ss[k];
        match &st.inherit_task_key {
            Some(inh) => {
                let iv = trim_exec(&chars_of(inh.as_str()));
                if !same(&key, &chars_of("phrase")) || !same(&iv, &chars_of("analyze")) {
                    return Err(owned("only phrase may inherit analyze in the initial settings schema"));
                }
            },
            None => {
                let pname = match &st.provider_name {
                    None => {
                        return Err(message("provider_name is required for ", &key));
                    },
                    Some(p) => trim_exec(&chars_of(p.as_str())),
                };
                let mut known = false;
                let mut q: usize = 0;
                while q < names.len()
                    invariant
                        0 <= q <= names@.len(),
                        names@.len() == ps@.len(),
                        forall|j: int| 0 <= j < ps@.len() ==> #[trigger] names@[j]@ == trim(ps@[j].name@),
                        known <==> exists|x: int| 0 <= x < q && trim(#[trigger] ps@[x].name@) == pname@,
                    decreases names@.len() - q,
                {
                    if same(&names[q], &pname) {
                        known = true;
                    }
                    q = q + 1;
                }
                if !known {
                    return Err(message("unknown provider profile: ", &pname));
                }
                match &st.model_id {
                    None => {
                        return Err(message("model_id is required for ", &key));
                    },
                    Some(m) => {
                        if trim_exec(&chars_of(m.as_str())).len() == 0 {
                            return Err(message("model_id is required for ", &key));
                        }
                    },
                }
            },
        }
        keys.push(key);
        k = k + 1;
    }
    Ok(())
}

/// A masked API key: the first four and last four characters of a key
/// longer than eight, eight stars otherwise, nothing for an empty key.
pub open spec fn key_preview(k: Seq<char>) -> Option<Seq<char>> {
    if k.len() == 0 {
        None
    } else if k.len() <= 8 {
        Some("********"@)
    } else {
        Some(k.take(4) + "..."@ + k.skip(k.len() - 4))
    }
}

pub fn api_key_preview(api_key: &str) -> (r: Option<String>)
    ensures
        r matches Some(x) ==> key_preview(api_key@) == Some(x@),
        r is None ==> key_preview(api_key@) is None,
{
    let k = chars_of(api_key);
    let n = k.len();
    if n == 0 {
        return None;
    }
    if n <= 8 {
        return Some(owned("********"));
    }
    let mut v = slice_of(&k, 0, 4);
    extend_str(&mut v, "...");
    let tail = slice_of(&k, n - 4, n);
    extend(&mut v, &tail);
    assert(v@ =~= k@.take(4) + "..."@ + k@.skip(n - 4));
    Some(string_of(&v))
}

/// Whether a model id names an embedding model.
pub fn looks_like_embedding_model(model: &str) -> (r: bool)
    ensures
        r == contains(ascii_lower(model@), "embedding"@),
{
    let l = ascii_lower_exec(&chars_of(model));
    contains_exec(&l, &chars_of("embedding"))
}

/// Whether both the base URL and the model id of a model test are given.
pub fn test_inputs_present(base_url: &str, model_id: &str) -> (r: bool)
    ensures
        r == (trim(base_url@).len() > 0 && trim(model_id@).len() > 0),
{
    trim_exec(&chars_of(base_url)).len() > 0 && trim_exec(&chars_of(model_id)).len() > 0
}

} // verus!
