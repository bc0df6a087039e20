//! Continue IDE integration: where its configuration lives, how the OAAS model
//! entry is merged into it (YAML or the older JSON format), and how an
//! existing OAAS entry is recognised.
use vstd::prelude::*;

use crate::doc::{
    lemma_get_update, lemma_get_ensure, lemma_get_ensure_other, lemma_get_key_pos, lemma_get_first,
    lemma_get_second,
    ensure_entry, entry_models, find_key, get_entry, get_key, has_key, is_str, key_at, key_pos,
    lemma_entry_models, lemma_models, lemma_models_concat, lemma_models_push,
    lemma_entry_models_push, lemma_ensure_key_has, entry_is_str, models, str_value, untag, untagged, as_str, str_of, ensure_key, Tree, Value,
};
use crate::error::{ErrorModel, OaasError};
use crate::paths::{file_name_of, join, parent_of, path_file_name, path_join, path_parent, EnvVars};
use crate::runtime::which_path;
use crate::text::{concat3, decimal, fmt_u64, owned, str_eq, trim_end_char, trim_end_matches};

verus! {

/// Name of the model entry OAAS writes into Continue's configuration.
pub const OAAS_MODEL_NAME: &'static str = "OAAS (local)";

/// Why a Continue configuration could not take the OAAS entry.
#[derive(Debug, Clone, PartialEq, Eq)]
pub enum MergeFailure {
    /// The document root is not a mapping / object.
    RootNotMapping,
    /// The `models` field is not a list.
    ModelsNotList,
}

// ---------------------------------------------------------------------------
// Where Continue's configuration lives
// ---------------------------------------------------------------------------

pub open spec fn no_home_continue_msg() -> Seq<char> {
    "HOME non défini — impossible de localiser ~/.continue"@
}

/// Continue's global directory `~/.continue`; an error when `HOME` is unset.
pub fn continue_global_dir(env: &EnvVars) -> (r: Result<String, OaasError>)
    ensures
        match env.home {
            Some(h) => r matches Ok(d) && d@ == path_join(h@, ".continue"@),
            None => r matches Err(e) && e.model() == ErrorModel::Config(no_home_continue_msg()),
        },
{
    match &env.home {
        Some(h) => Ok(join(h.as_str(), ".continue")),
        None => Err(OaasError::config("HOME non défini — impossible de localiser ~/.continue")),
    }
}

/// `~/.continue/config.yaml`.
pub fn continue_global_yaml_path(env: &EnvVars) -> (r: Result<String, OaasError>)
    ensures
        match env.home {
            Some(h) => r matches Ok(p) && p@ == path_join(path_join(h@, ".continue"@), "config.yaml"@),
            None => r matches Err(e) && e.model() == ErrorModel::Config(no_home_continue_msg()),
        },
{
    let d = continue_global_dir(env)?;
    Ok(join(d.as_str(), "config.yaml"))
}

/// `~/.continue/config.json`.
pub fn continue_global_json_path(env: &EnvVars) -> (r: Result<String, OaasError>)
    ensures
        match env.home {
            Some(h) => r matches Ok(p) && p@ == path_join(path_join(h@, ".continue"@), "config.json"@),
            None => r matches Err(e) && e.model() == ErrorModel::Config(no_home_continue_msg()),
        },
{
    let d = continue_global_dir(env)?;
    Ok(join(d.as_str(), "config.json"))
}

/// `<workspace>/.continue`: Continue's configuration for one project.
pub fn workspace_continue_dir(workspace_root: &str) -> (r: String)
    ensures
        r@ == path_join(workspace_root@, ".continue"@),
{
    join(workspace_root, ".continue")
}

/// The file of `continue_dir` a merge writes to: `config.yaml` when it
/// exists (Continue reads the YAML file first when both exist), else
/// `config.json`, which a merge creates when neither file exists yet.
pub open spec fn picked_config(continue_dir: Seq<char>, yaml_is_file: bool, json_is_file: bool) -> Seq<char> {
    if yaml_is_file {
        path_join(continue_dir, "config.yaml"@)
    } else {
        path_join(continue_dir, "config.json"@)
    }
}

/// The file of `continue_dir` a merge writes to, given which of its
/// `config.yaml` and `config.json` are regular files.
pub fn pick_continue_config_path(continue_dir: &str, yaml_is_file: bool, json_is_file: bool) -> (r:
    String)
    ensures
        r@ == picked_config(continue_dir@, yaml_is_file, json_is_file),
{
    if yaml_is_file {
        join(continue_dir, "config.yaml")
    } else {
        join(continue_dir, "config.json")
    }
}

/// The global Continue file a merge writes to.
pub fn continue_resolve_write_path(env: &EnvVars, yaml_is_file: bool, json_is_file: bool) -> (r:
    Result<String, OaasError>)
    ensures
        match env.home {
            Some(h) => r matches Ok(p) && p@ == picked_config(path_join(h@, ".continue"@), yaml_is_file, json_is_file),
            None => r matches Err(e) && e.model() == ErrorModel::Config(no_home_continue_msg()),
        },
{
    let d = continue_global_dir(env)?;
    Ok(pick_continue_config_path(d.as_str(), yaml_is_file, json_is_file))
}

/// The Continue file a merge writes to: in `<workspace>/.continue` when a
/// workspace is given, else in `~/.continue`. The two flags tell whether
/// that directory's `config.yaml` and `config.json` are regular files.
pub fn resolve_continue_write_path(
    workspace_root: Option<&str>,
    env: &EnvVars,
    yaml_is_file: bool,
    json_is_file: bool,
) -> (r: Result<String, OaasError>)
    ensures
        match workspace_root {
            Some(w) => r matches Ok(p) && p@ == picked_config(path_join(w@, ".continue"@), yaml_is_file, json_is_file),
            None => match env.home {
                Some(h) => r matches Ok(p) && p@ == picked_config(path_join(h@, ".continue"@), yaml_is_file, json_is_file),
                None => r matches Err(e) && e.model() == ErrorModel::Config(no_home_continue_msg()),
            },
        },
{
    match workspace_root {
        Some(w) => {
            let d = workspace_continue_dir(w);
            Ok(pick_continue_config_path(d.as_str(), yaml_is_file, json_is_file))
        },
        None => continue_resolve_write_path(env, yaml_is_file, json_is_file),
    }
}

// ---------------------------------------------------------------------------
// YAML format
// ---------------------------------------------------------------------------

/// A `models` entry that an earlier merge wrote: its `name` is the OAAS name,
/// or its `apiBase` string is `api` up to trailing slashes.
pub open spec fn is_oaas_yaml_entry(item: Tree, api: Seq<char>) -> bool {
    match untag(item) {
        Tree::Mapping(m) => {
            ||| get_key(m, "name"@) == Some(Tree::Str(OAAS_MODEL_NAME@))
            ||| (get_key(m, "apiBase"@) matches Some(Tree::Str(ab)) && trim_end_char(ab, '/') == api)
        },
        _ => false,
    }
}

/// `s` without the entries an earlier merge wrote, order kept.
pub open spec fn without_oaas_yaml(s: Seq<Tree>, api: Seq<char>) -> Seq<Tree>
    decreases s.len(),
{
    if s.len() == 0 {
        Seq::empty()
    } else {
        let r = without_oaas_yaml(s.drop_last(), api);
        if is_oaas_yaml_entry(s.last(), api) {
            r
        } else {
            r.push(s.last())
        }
    }
}

/// The OAAS entry of a Continue YAML file.
pub open spec fn oaas_yaml_entry(api: Seq<char>, model: Seq<char>) -> Tree {
    Tree::Mapping(
        seq![
            (Tree::Str("name"@), Tree::Str(OAAS_MODEL_NAME@)),
            (Tree::Str("provider"@), Tree::Str("openai"@)),
            (Tree::Str("model"@), Tree::Str(model)),
            (Tree::Str("apiBase"@), Tree::Str(api)),
            (Tree::Str("apiKey"@), Tree::Str("local"@)),
            (Tree::Str("roles"@), Tree::Array(seq![Tree::Str("chat"@)])),
        ],
    )
}

/// The `models` list once merged: the OAAS entry first, then the other
/// entries in their order; tags around the list are kept.
pub open spec fn merged_yaml_models(v: Tree, api: Seq<char>, model: Seq<char>) -> Option<Tree>
    decreases v,
{
    match v {
        Tree::Tagged(t, b) => match merged_yaml_models(*b, api, model) {
            Some(x) => Some(Tree::Tagged(t, Box::new(x))),
            None => None,
        },
        Tree::Array(s) => Some(Tree::Array(seq![oaas_yaml_entry(api, model)] + without_oaas_yaml(s, api))),
        _ => None,
    }
}

/// The top-level keys a Continue YAML file gets when it lacks them.
pub open spec fn yaml_defaults(m: Seq<(Tree, Tree)>) -> Seq<(Tree, Tree)> {
    ensure_key(
        ensure_key(
            ensure_key(
                ensure_key(m, "name"@, Tree::Str("OAAS"@)),
                "version"@,
                Tree::Str("0.0.1"@),
            ),
            "schema"@,
            Tree::Str("v1"@),
        ),
        "models"@,
        Tree::Array(Seq::empty()),
    )
}

/// The root mapping once merged.
pub open spec fn merged_yaml_mapping(m: Seq<(Tree, Tree)>, api: Seq<char>, model: Seq<char>) -> Option<
    Seq<(Tree, Tree)>,
> {
    let m1 = yaml_defaults(m);
    let p = key_pos(m1, "models"@);
    match merged_yaml_models(m1[p].1, api, model) {
        Some(nv) => Some(m1.update(p, (m1[p].0, nv))),
        None => None,
    }
}

/// A Continue YAML document once the OAAS entry is merged into it.
pub open spec fn merged_yaml(root: Tree, api: Seq<char>, model: Seq<char>) -> Result<Tree, MergeFailure>
    decreases root,
{
    match root {
        Tree::Tagged(t, b) => match merged_yaml(*b, api, model) {
            Ok(x) => Ok(Tree::Tagged(t, Box::new(x))),
            Err(e) => Err(e),
        },
        Tree::Mapping(m) => match merged_yaml_mapping(m, api, model) {
            Some(m2) => Ok(Tree::Mapping(m2)),
            None => Err(MergeFailure::ModelsNotList),
        },
        _ => Err(MergeFailure::RootNotMapping),
    }
}

/// The document a merge starts from: the file's, or an empty mapping.
pub open spec fn start_doc(root: Option<Value>) -> Tree {
    match root {
        Some(v) => v.model(),
        None => Tree::Mapping(Seq::empty()),
    }
}

pub open spec fn yaml_root_msg() -> Seq<char> {
    "Racine de config.yaml Continue doit être un objet (mapping YAML)."@
}

pub open spec fn yaml_models_msg() -> Seq<char> {
    "Champ « models » de Continue doit être une liste."@
}

pub open spec fn json_root_msg() -> Seq<char> {
    "Racine de config.json Continue doit être un objet."@
}

pub open spec fn json_models_msg() -> Seq<char> {
    "Champ « models » doit être un tableau JSON."@
}

/// Whether the `apiBase` entry of `m` is the untagged string `api` up to trailing slashes.
fn yaml_api_base_hit(m: &Vec<(Value, Value)>, api: &str) -> (r: bool)
    ensures
        r == (get_key(entry_models(m@), "apiBase"@) matches Some(Tree::Str(ab)) && trim_end_char(ab, '/')
            == api@),
{
    match get_entry(m, "apiBase") {
        Some(Value::Str(ab)) => {
            let t = trim_end_matches(ab.as_str(), '/');
            str_eq(t.as_str(), api)
        },
        _ => false,
    }
}

/// Whether `item` is an entry an earlier YAML merge wrote.
fn is_oaas_yaml_item(item: &Value, api: &str) -> (r: bool)
    ensures
        r == is_oaas_yaml_entry(item.model(), api@),
{
    match untagged(item) {
        Value::Mapping(m) => entry_is_str(m, "name", OAAS_MODEL_NAME) || yaml_api_base_hit(m, api),
        _ => false,
    }
}

/// `items` without the entries an earlier YAML merge wrote.
fn without_oaas_yaml_items(items: Vec<Value>, api: &str) -> (r: Vec<Value>)
    ensures
        models(r@) == without_oaas_yaml(models(items@), api@),
{
    let ghost orig = items@;
    let mut src = items;
    let mut out: Vec<Value> = Vec::new();
    let ghost mut n: int = 0;
    proof {
        assert(orig.take(0) =~= Seq::<Value>::empty());
        assert(src@ =~= orig.skip(0));
    }
    while src.len() > 0
        invariant
            0 <= n <= orig.len(),
            src@ == orig.skip(n),
            models(out@) == without_oaas_yaml(models(orig.take(n)), api@),
        decreases src.len(),
    {
        let x = src.remove(0);
        proof {
            assert(x == orig[n]);
            assert(orig.take(n + 1).drop_last() =~= orig.take(n));
            assert(orig.take(n + 1).last() == x);
            lemma_models(orig.take(n + 1));
            assert(models(orig.take(n + 1)).drop_last() =~= models(orig.take(n)));
            assert(src@ =~= orig.skip(n + 1));
        }
        if !is_oaas_yaml_item(&x, api) {
            proof {
                lemma_models_push(out@, x);
            }
            out.push(x);
        }
        proof {
            n = n + 1;
        }
    }
    proof {
        assert(orig.take(n) =~= orig);
    }
    out
}

/// The OAAS entry of a Continue YAML file.
pub fn oaas_yaml_model(api_base: &str, model_id: &str) -> (v: Value)
    ensures
        v.model() == oaas_yaml_entry(api_base@, model_id@),
{
    let mut roles: Vec<Value> = Vec::new();
    let chat = str_value("chat");
    proof {
        lemma_models_push(roles@, chat);
    }
    roles.push(chat);
    assert(models(roles@) =~= seq![Tree::Str("chat"@)]);
    let mut m: Vec<(Value, Value)> = Vec::new();
    let e0 = (str_value("name"), str_value(OAAS_MODEL_NAME));
    let e1 = (str_value("provider"), str_value("openai"));
    let e2 = (str_value("model"), str_value(model_id));
    let e3 = (str_value("apiBase"), str_value(api_base));
    let e4 = (str_value("apiKey"), str_value("local"));
    let e5 = (str_value("roles"), Value::Array(roles));
    proof {
        lemma_entry_models_push(m@, e0);
        lemma_entry_models_push(m@.push(e0), e1);
        lemma_entry_models_push(m@.push(e0).push(e1), e2);
        lemma_entry_models_push(m@.push(e0).push(e1).push(e2), e3);
        lemma_entry_models_push(m@.push(e0).push(e1).push(e2).push(e3), e4);
        lemma_entry_models_push(m@.push(e0).push(e1).push(e2).push(e3).push(e4), e5);
    }
    m.push(e0);
    m.push(e1);
    m.push(e2);
    m.push(e3);
    m.push(e4);
    m.push(e5);
    assert(entry_models(m@) =~= seq![
        (Tree::Str("name"@), Tree::Str(OAAS_MODEL_NAME@)),
        (Tree::Str("provider"@), Tree::Str("openai"@)),
        (Tree::Str("model"@), Tree::Str(model_id@)),
        (Tree::Str("apiBase"@), Tree::Str(api_base@)),
        (Tree::Str("apiKey"@), Tree::Str("local"@)),
        (Tree::Str("roles"@), Tree::Array(seq![Tree::Str("chat"@)])),
    ]);
    Value::Mapping(m)
}

/// The `models` value once merged.
fn merge_yaml_models(v: Value, api: &str, model_id: &str) -> (r: Option<Value>)
    ensures
        r is Some <==> merged_yaml_models(v.model(), api@, model_id@) is Some,
        r matches Some(x) ==> merged_yaml_models(v.model(), api@, model_id@) == Some(x.model()),
    decreases v,
{
    match v {
        Value::Tagged(t, b) => match merge_yaml_models(*b, api, model_id) {
            Some(x) => Some(Value::Tagged(t, Box::new(x))),
            None => None,
        },
        Value::Array(items) => {
            let ghost before = models(items@);
            let kept = without_oaas_yaml_items(items, api);
            let mut out: Vec<Value> = Vec::new();
            let entry = oaas_yaml_model(api, model_id);
            proof {
                lemma_models_push(out@, entry);
                lemma_models_concat(out@.push(entry), kept@);
            }
            out.push(entry);
            let ghost head = out@;
            let mut rest = kept;
            out.append(&mut rest);
            proof {
                assert(out@ == head + kept@);
                assert(models(head) =~= seq![oaas_yaml_entry(api@, model_id@)]);
            }
            Some(Value::Array(out))
        },
        _ => None,
    }
}

/// The root mapping once merged.
fn merge_yaml_mapping(m: Vec<(Value, Value)>, api: &str, model_id: &str) -> (r: Option<
    Vec<(Value, Value)>,
>)
    ensures
        r is Some <==> merged_yaml_mapping(entry_models(m@), api@, model_id@) is Some,
        r matches Some(x) ==> merged_yaml_mapping(entry_models(m@), api@, model_id@) == Some(
            entry_models(x@),
        ),
{
    let mut m = m;
    ensure_entry(&mut m, "name", str_value("OAAS"));
    ensure_entry(&mut m, "version", str_value("0.0.1"));
    ensure_entry(&mut m, "schema", str_value("v1"));
    let ghost before = entry_models(m@);
    ensure_entry(&mut m, "models", Value::Array(Vec::new()));
    proof {
        lemma_ensure_key_has(before, "models"@, Tree::Array(Seq::empty()));
    }
    proof {
        assert(models(Seq::<Value>::empty()) =~= Seq::<Tree>::empty());
    }
    match find_key(&m, "models") {
        Some(p) => {
            let ghost m1 = entry_models(m@);
            let ghost mv = m@;
            proof {
                lemma_entry_models(mv);
            }
            let (k, val) = m.remove(p);
            assert(val.model() == m1[p as int].1);
            match merge_yaml_models(val, api, model_id) {
                Some(nv) => {
                    m.insert(p, (k, nv));
                    proof {
                        lemma_entry_models(m@);
                        assert(m@ =~= mv.update(p as int, (k, nv)));
                        assert(entry_models(m@) =~= m1.update(p as int, (m1[p as int].0, nv.model())));
                    }
                    Some(m)
                },
                None => None,
            }
        },
        None => None,
    }
}

/// The merge on a whole document.
fn merge_yaml_root(root: Value, api: &str, model_id: &str) -> (r: Result<Value, MergeFailure>)
    ensures
        r is Ok <==> merged_yaml(root.model(), api@, model_id@) is Ok,
        r matches Ok(x) ==> merged_yaml(root.model(), api@, model_id@) == Ok::<Tree, MergeFailure>(
            x.model(),
        ),
        r matches Err(e) ==> merged_yaml(root.model(), api@, model_id@) == Err::<Tree, MergeFailure>(e),
    decreases root,
{
    match root {
        Value::Tagged(t, b) => match merge_yaml_root(*b, api, model_id) {
            Ok(x) => Ok(Value::Tagged(t, Box::new(x))),
            Err(e) => Err(e),
        },
        Value::Mapping(m) => match merge_yaml_mapping(m, api, model_id) {
            Some(m2) => Ok(Value::Mapping(m2)),
            None => Err(MergeFailure::ModelsNotList),
        },
        _ => Err(MergeFailure::RootNotMapping),
    }
}

/// Merges the OAAS entry into a Continue `config.yaml` document (`None` when
/// the file does not exist yet): missing `name`, `version`, `schema` and
/// `models` keys are added, earlier OAAS entries (same name, or same
/// `apiBase` up to trailing slashes) are removed, and the OAAS entry becomes
/// the first model. `api_base` must be the OAAS proxy URL (…/v1).
pub fn merge_oaas_into_continue_yaml(root: Option<Value>, api_base: &str, model_id: &str) -> (r:
    Result<Value, OaasError>)
    ensures
        ({
            let api = trim_end_char(api_base@, '/');
            match merged_yaml(start_doc(root), api, model_id@) {
                Ok(t) => r matches Ok(v) && v.model() == t,
                Err(MergeFailure::RootNotMapping) => r matches Err(e) && e.model()
                    == ErrorModel::Config(yaml_root_msg()),
                Err(MergeFailure::ModelsNotList) => r matches Err(e) && e.model()
                    == ErrorModel::Config(yaml_models_msg()),
            }
        }),
{
    let api = trim_end_matches(api_base, '/');
    let doc = match root {
        Some(v) => v,
        None => {
            let v = Value::Mapping(Vec::new());
            assert(entry_models(Seq::<(Value, Value)>::empty()) =~= Seq::<(Tree, Tree)>::empty());
            v
        },
    };
    match merge_yaml_root(doc, api.as_str(), model_id) {
        Ok(v) => Ok(v),
        Err(MergeFailure::RootNotMapping) => Err(
            OaasError::config("Racine de config.yaml Continue doit être un objet (mapping YAML)."),
        ),
        Err(MergeFailure::ModelsNotList) => Err(
            OaasError::config("Champ « models » de Continue doit être une liste."),
        ),
    }
}

/// The message shown after a YAML merge into `config_path`.
pub fn yaml_merge_message(config_path: &str) -> (s: String)
    ensures
        s@ == "Bloc « OAAS (local) » écrit en tête de « "@ + config_path@
            + " » (sauvegarde .oaas-backup.* si fichier existait). Recharge la fenêtre Continue / VS Code."@,
{
    concat3(
        "Bloc « OAAS (local) » écrit en tête de « ",
        config_path,
        " » (sauvegarde .oaas-backup.* si fichier existait). Recharge la fenêtre Continue / VS Code.",
    )
}


// ---------------------------------------------------------------------------
// JSON format (older Continue `config.json`)
// ---------------------------------------------------------------------------

/// A JSON `models` entry that an earlier merge wrote: its `name` or `title`
/// is the OAAS name, or its `apiBase` is `api` up to trailing slashes.
pub open spec fn is_oaas_json_entry(item: Tree, api: Seq<char>) -> bool {
    match item {
        Tree::Mapping(o) => {
            ||| get_key(o, "name"@) == Some(Tree::Str(OAAS_MODEL_NAME@))
            ||| get_key(o, "title"@) == Some(Tree::Str(OAAS_MODEL_NAME@))
            ||| (get_key(o, "apiBase"@) matches Some(Tree::Str(ab)) && trim_end_char(ab, '/') == api)
        },
        _ => false,
    }
}

/// `s` without the entries an earlier JSON merge wrote, order kept.
pub open spec fn without_oaas_json(s: Seq<Tree>, api: Seq<char>) -> Seq<Tree>
    decreases s.len(),
{
    if s.len() == 0 {
        Seq::empty()
    } else {
        let r = without_oaas_json(s.drop_last(), api);
        if is_oaas_json_entry(s.last(), api) {
            r
        } else {
            r.push(s.last())
        }
    }
}

/// The OAAS entry of a Continue JSON file.
pub open spec fn oaas_json_entry(api: Seq<char>, model: Seq<char>) -> Tree {
    Tree::Mapping(
        seq![
            (Tree::Str("title"@), Tree::Str(OAAS_MODEL_NAME@)),
            (Tree::Str("name"@), Tree::Str(OAAS_MODEL_NAME@)),
            (Tree::Str("provider"@), Tree::Str("openai"@)),
            (Tree::Str("model"@), Tree::Str(model)),
            (Tree::Str("apiBase"@), Tree::Str(api)),
            (Tree::Str("apiKey"@), Tree::Str("local"@)),
        ],
    )
}

/// A Continue JSON document once the OAAS entry is merged into it: a
/// `models` array is added when missing, earlier OAAS entries are removed
/// and the OAAS entry becomes the first one.
pub open spec fn merged_json(root: Tree, api: Seq<char>, model: Seq<char>) -> Result<Tree, MergeFailure> {
    match root {
        Tree::Mapping(o) => {
            let o1 = ensure_key(o, "models"@, Tree::Array(Seq::empty()));
            let p = key_pos(o1, "models"@);
            match o1[p].1 {
                Tree::Array(s) => Ok(
                    Tree::Mapping(
                        o1.update(
                            p,
                            (o1[p].0, Tree::Array(seq![oaas_json_entry(api, model)] + without_oaas_json(s, api))),
                        ),
                    ),
                ),
                _ => Err(MergeFailure::ModelsNotList),
            }
        },
        _ => Err(MergeFailure::RootNotMapping),
    }
}

/// Whether `item` is an entry an earlier JSON merge wrote.
fn is_oaas_json_item(item: &Value, api: &str) -> (r: bool)
    ensures
        r == is_oaas_json_entry(item.model(), api@),
{
    match item {
        Value::Mapping(o) => entry_is_str(o, "name", OAAS_MODEL_NAME) || entry_is_str(
            o,
            "title",
            OAAS_MODEL_NAME,
        ) || yaml_api_base_hit(o, api),
        _ => false,
    }
}

/// `items` without the entries an earlier JSON merge wrote.
fn without_oaas_json_items(items: Vec<Value>, api: &str) -> (r: Vec<Value>)
    ensures
        models(r@) == without_oaas_json(models(items@), api@),
{
    let ghost orig = items@;
    let mut src = items;
    let mut out: Vec<Value> = Vec::new();
    let ghost mut n: int = 0;
    proof {
        assert(orig.take(0) =~= Seq::<Value>::empty());
        assert(src@ =~= orig.skip(0));
    }
    while src.len() > 0
        invariant
            0 <= n <= orig.len(),
            src@ == orig.skip(n),
            models(out@) == without_oaas_json(models(orig.take(n)), api@),
        decreases src.len(),
    {
        let x = src.remove(0);
        proof {
            assert(x == orig[n]);
            assert(orig.take(n + 1).drop_last() =~= orig.take(n));
            assert(orig.take(n + 1).last() == x);
            lemma_models(orig.take(n + 1));
            assert(models(orig.take(n + 1)).drop_last() =~= models(orig.take(n)));
            assert(src@ =~= orig.skip(n + 1));
        }
        if !is_oaas_json_item(&x, api) {
            proof {
                lemma_models_push(out@, x);
            }
            out.push(x);
        }
        proof {
            n = n + 1;
        }
    }
    proof {
        assert(orig.take(n) =~= orig);
    }
    out
}

/// The OAAS entry of a Continue JSON file.
pub fn oaas_json_model(api_base: &str, model_id: &str) -> (v: Value)
    ensures
        v.model() == oaas_json_entry(api_base@, model_id@),
{
    let mut m: Vec<(Value, Value)> = Vec::new();
    let e0 = (str_value("title"), str_value(OAAS_MODEL_NAME));
    let e1 = (str_value("name"), str_value(OAAS_MODEL_NAME));
    let e2 = (str_value("provider"), str_value("openai"));
    let e3 = (str_value("model"), str_value(model_id));
    let e4 = (str_value("apiBase"), str_value(api_base));
    let e5 = (str_value("apiKey"), str_value("local"));
    proof {
        lemma_entry_models_push(m@, e0);
        lemma_entry_models_push(m@.push(e0), e1);
        lemma_entry_models_push(m@.push(e0).push(e1), e2);
        lemma_entry_models_push(m@.push(e0).push(e1).push(e2), e3);
        lemma_entry_models_push(m@.push(e0).push(e1).push(e2).push(e3), e4);
        lemma_entry_models_push(m@.push(e0).push(e1).push(e2).push(e3).push(e4), e5);
    }
    m.push(e0);
    m.push(e1);
    m.push(e2);
    m.push(e3);
    m.push(e4);
    m.push(e5);
    assert(entry_models(m@) =~= seq![
        (Tree::Str("title"@), Tree::Str(OAAS_MODEL_NAME@)),
        (Tree::Str("name"@), Tree::Str(OAAS_MODEL_NAME@)),
        (Tree::Str("provider"@), Tree::Str("openai"@)),
        (Tree::Str("model"@), Tree::Str(model_id@)),
        (Tree::Str("apiBase"@), Tree::Str(api_base@)),
        (Tree::Str("apiKey"@), Tree::Str("local"@)),
    ]);
    Value::Mapping(m)
}

/// The merge on an object's entries.
fn merge_json_object(o: Vec<(Value, Value)>, api: &str, model_id: &str) -> (r: Result<
    Vec<(Value, Value)>,
    MergeFailure,
>)
    ensures
        match merged_json(Tree::Mapping(entry_models(o@)), api@, model_id@) {
            Ok(t) => r matches Ok(x) && t == Tree::Mapping(entry_models(x@)),
            Err(e) => r == Err::<Vec<(Value, Value)>, MergeFailure>(e),
        },
{
    let mut m = o;
    let ghost before = entry_models(m@);
    ensure_entry(&mut m, "models", Value::Array(Vec::new()));
    proof {
        assert(models(Seq::<Value>::empty()) =~= Seq::<Tree>::empty());
        lemma_ensure_key_has(before, "models"@, Tree::Array(Seq::empty()));
    }
    match find_key(&m, "models") {
        Some(p) => {
            let ghost m1 = entry_models(m@);
            let ghost mv = m@;
            proof {
                lemma_entry_models(mv);
            }
            let (k, val) = m.remove(p);
            assert(val.model() == m1[p as int].1);
            match val {
                Value::Array(items) => {
                    let kept = without_oaas_json_items(items, api);
                    let mut out: Vec<Value> = Vec::new();
                    let entry = oaas_json_model(api, model_id);
                    proof {
                        lemma_models_push(out@, entry);
                        lemma_models_concat(out@.push(entry), kept@);
                    }
                    out.push(entry);
                    let ghost head = out@;
                    let mut rest = kept;
                    out.append(&mut rest);
                    proof {
                        assert(models(head) =~= seq![oaas_json_entry(api@, model_id@)]);
                    }
                    let nv = Value::Array(out);
                    m.insert(p, (k, nv));
                    proof {
                        lemma_entry_models(m@);
                        assert(m@ =~= mv.update(p as int, (k, nv)));
                        assert(entry_models(m@) =~= m1.update(p as int, (m1[p as int].0, nv.model())));
                    }
                    Ok(m)
                },
                _ => Err(MergeFailure::ModelsNotList),
            }
        },
        None => Err(MergeFailure::ModelsNotList),
    }
}

/// Merges the OAAS entry into a Continue `config.json` document (`None` when
/// the file does not exist yet); same rules as the YAML merge, where an
/// entry is recognised by `name` or `title`.
pub fn merge_oaas_into_continue_json(root: Option<Value>, api_base: &str, model_id: &str) -> (r:
    Result<Value, OaasError>)
    ensures
        ({
            let api = trim_end_char(api_base@, '/');
            match merged_json(start_doc(root), api, model_id@) {
                Ok(t) => r matches Ok(v) && v.model() == t,
                Err(MergeFailure::RootNotMapping) => r matches Err(e) && e.model()
                    == ErrorModel::Config(json_root_msg()),
                Err(MergeFailure::ModelsNotList) => r matches Err(e) && e.model()
                    == ErrorModel::Config(json_models_msg()),
            }
        }),
{
    let api = trim_end_matches(api_base, '/');
    let doc = match root {
        Some(v) => v,
        None => {
            let v = Value::Mapping(Vec::new());
            assert(entry_models(Seq::<(Value, Value)>::empty()) =~= Seq::<(Tree, Tree)>::empty());
            v
        },
    };
    match doc {
        Value::Mapping(o) => match merge_json_object(o, api.as_str(), model_id) {
            Ok(m) => Ok(Value::Mapping(m)),
            Err(MergeFailure::RootNotMapping) => Err(
                OaasError::config("Racine de config.json Continue doit être un objet."),
            ),
            Err(MergeFailure::ModelsNotList) => Err(
                OaasError::config("Champ « models » doit être un tableau JSON."),
            ),
        },
        _ => Err(OaasError::config("Racine de config.json Continue doit être un objet.")),
    }
}

/// The message shown after a JSON merge into `config_path`.
pub fn json_merge_message(config_path: &str) -> (s: String)
    ensures
        s@ == "Entrée « OAAS (local) » fusionnée dans « "@ + config_path@
            + " » (backup .oaas-backup.* si besoin)."@,
{
    concat3(
        "Entrée « OAAS (local) » fusionnée dans « ",
        config_path,
        " » (backup .oaas-backup.* si besoin).",
    )
}

// ---------------------------------------------------------------------------
// Recognising an existing OAAS entry
// ---------------------------------------------------------------------------

/// A YAML `models` item counts as the OAAS entry: its `name` is the OAAS
/// name, or its `apiBase` string (tags aside) is `api` up to trailing slashes.
pub open spec fn is_yaml_block_item(item: Tree, api: Seq<char>) -> bool {
    match untag(item) {
        Tree::Mapping(m) => {
            ||| get_key(m, "name"@) == Some(Tree::Str(OAAS_MODEL_NAME@))
            ||| (get_key(m, "apiBase"@) matches Some(v) && as_str(v) matches Some(s) && trim_end_char(s, '/')
                == api)
        },
        _ => false,
    }
}

/// Some item of `s` counts as the OAAS entry of a YAML file.
pub open spec fn has_yaml_block_item(s: Seq<Tree>, api: Seq<char>) -> bool {
    exists|i: int| 0 <= i < s.len() && is_yaml_block_item(#[trigger] s[i], api)
}

/// A Continue YAML document holds the OAAS entry: its root is a mapping
/// whose `models` is a list with an item that counts as the OAAS entry.
pub open spec fn yaml_has_block(root: Tree, api: Seq<char>) -> bool {
    match root {
        Tree::Mapping(m) => match get_key(m, "models"@) {
            Some(Tree::Array(s)) => has_yaml_block_item(s, api),
            _ => false,
        },
        _ => false,
    }
}

/// Some item of `s` counts as the OAAS entry of a JSON file.
pub open spec fn has_json_block_item(s: Seq<Tree>, api: Seq<char>) -> bool {
    exists|i: int| 0 <= i < s.len() && is_oaas_json_entry(#[trigger] s[i], api)
}

/// A Continue JSON document holds the OAAS entry.
pub open spec fn json_has_block(root: Tree, api: Seq<char>) -> bool {
    match root {
        Tree::Mapping(m) => match get_key(m, "models"@) {
            Some(Tree::Array(s)) => has_json_block_item(s, api),
            _ => false,
        },
        _ => false,
    }
}

/// Whether the `apiBase` of `m`, as a string with tags aside, is `api` up to trailing slashes.
fn yaml_api_base_str_hit(m: &Vec<(Value, Value)>, api: &str) -> (r: bool)
    ensures
        r == (get_key(entry_models(m@), "apiBase"@) matches Some(v) && as_str(v) matches Some(s)
            && trim_end_char(s, '/') == api@),
{
    match get_entry(m, "apiBase") {
        Some(v) => match str_of(v) {
            Some(s) => {
                let t = trim_end_matches(s.as_str(), '/');
                str_eq(t.as_str(), api)
            },
            None => false,
        },
        None => false,
    }
}

/// Whether `item` counts as the OAAS entry of a YAML file.
fn is_yaml_block(item: &Value, api: &str) -> (r: bool)
    ensures
        r == is_yaml_block_item(item.model(), api@),
{
    match untagged(item) {
        Value::Mapping(m) => entry_is_str(m, "name", OAAS_MODEL_NAME) || yaml_api_base_str_hit(m, api),
        _ => false,
    }
}

/// Whether some item counts as the OAAS entry of a YAML file.
fn any_yaml_block(items: &Vec<Value>, api: &str) -> (r: bool)
    ensures
        r == has_yaml_block_item(models(items@), api@),
{
    proof {
        lemma_models(items@);
    }
    let mut i: usize = 0;
    while i < items.len()
        invariant
            0 <= i <= items.len(),
            models(items@).len() == items.len(),
            forall|j: int| 0 <= j < items.len() ==> #[trigger] models(items@)[j] == items@[j].model(),
            forall|j: int| 0 <= j < i ==> !is_yaml_block_item(#[trigger] models(items@)[j], api@),
        decreases items.len() - i,
    {
        if is_yaml_block(&items[i], api) {
            assert(is_yaml_block_item(models(items@)[i as int], api@));
            return true;
        }
        i += 1;
    }
    false
}

/// Whether some item counts as the OAAS entry of a JSON file.
fn any_json_block(items: &Vec<Value>, api: &str) -> (r: bool)
    ensures
        r == has_json_block_item(models(items@), api@),
{
    proof {
        lemma_models(items@);
    }
    let mut i: usize = 0;
    while i < items.len()
        invariant
            0 <= i <= items.len(),
            models(items@).len() == items.len(),
            forall|j: int| 0 <= j < items.len() ==> #[trigger] models(items@)[j] == items@[j].model(),
            forall|j: int| 0 <= j < i ==> !is_oaas_json_entry(#[trigger] models(items@)[j], api@),
        decreases items.len() - i,
    {
        if is_oaas_json_item(&items[i], api) {
            assert(is_oaas_json_entry(models(items@)[i as int], api@));
            return true;
        }
        i += 1;
    }
    false
}

/// Whether a Continue YAML document (`None`: unreadable or not YAML) holds
/// the OAAS entry for `api_base` (compared up to trailing slashes).
pub fn continue_yaml_has_oaas_block(root: Option<&Value>, api_base: &str) -> (r: bool)
    ensures
        r == (root matches Some(v) && yaml_has_block(v.model(), trim_end_char(api_base@, '/'))),
{
    let api = trim_end_matches(api_base, '/');
    match root {
        Some(Value::Mapping(map)) => match get_entry(map, "models") {
            Some(Value::Array(items)) => {
                proof {
                    lemma_models(items@);
                }
                any_yaml_block(items, api.as_str())
            },
            _ => false,
        },
        _ => false,
    }
}

/// Whether a Continue JSON document (`None`: unreadable or not JSON) holds
/// the OAAS entry for `api_base` (compared up to trailing slashes).
pub fn continue_json_has_oaas_block(root: Option<&Value>, api_base: &str) -> (r: bool)
    ensures
        r == (root matches Some(v) && json_has_block(v.model(), trim_end_char(api_base@, '/'))),
{
    let api = trim_end_matches(api_base, '/');
    match root {
        Some(Value::Mapping(map)) => match get_entry(map, "models") {
            Some(Value::Array(items)) => {
                proof {
                    lemma_models(items@);
                }
                any_json_block(items, api.as_str())
            },
            _ => false,
        },
        _ => false,
    }
}

/// The `id` string of the first item of a list.
pub open spec fn first_item_id(s: Seq<Tree>) -> Option<Seq<char>> {
    if s.len() > 0 {
        match s[0] {
            Tree::Mapping(o) => match get_key(o, "id"@) {
                Some(Tree::Str(id)) => Some(id),
                _ => None,
            },
            _ => None,
        }
    } else {
        None
    }
}

/// The id of the first model a `GET /v1/models` answer lists (`data[0].id`).
pub open spec fn first_model_id_of(v: Tree) -> Option<Seq<char>> {
    match v {
        Tree::Mapping(m) => match get_key(m, "data"@) {
            Some(Tree::Array(s)) => first_item_id(s),
            _ => None,
        },
        _ => None,
    }
}

pub open spec fn no_model_id_msg() -> Seq<char> {
    "Réponse /v1/models sans id exploitable — indique le modèle manuellement depuis l’UI."@
}

/// The `id` string of the first item of a `data` list.
fn first_id_in(s: &Vec<Value>) -> (r: Option<&String>)
    ensures
        match r {
            Some(id) => first_item_id(models(s@)) == Some(id@),
            None => first_item_id(models(s@)) is None,
        },
{
    proof {
        lemma_models(s@);
    }
    if s.len() > 0 {
        match &s[0] {
            Value::Mapping(o) => match get_entry(o, "id") {
                Some(Value::Str(id)) => Some(id),
                _ => None,
            },
            _ => None,
        }
    } else {
        None
    }
}

/// The first model id of a `GET /v1/models` answer, or the backend error that
/// asks for the model to be given by hand.
pub fn first_model_id(v: &Value) -> (r: Result<String, OaasError>)
    ensures
        match first_model_id_of(v.model()) {
            Some(id) => r matches Ok(s) && s@ == id,
            None => r matches Err(e) && e.model() == ErrorModel::Backend(no_model_id_msg()),
        },
{
    let found = match v {
        Value::Mapping(m) => match get_entry(m, "data") {
            Some(Value::Array(s)) => first_id_in(s),
            _ => None,
        },
        _ => None,
    };
    match found {
        Some(id) => Ok(id.clone()),
        None => Err(
            OaasError::backend(
                "Réponse /v1/models sans id exploitable — indique le modèle manuellement depuis l’UI.",
            ),
        ),
    }
}


// ---------------------------------------------------------------------------
// Laws
// ---------------------------------------------------------------------------

/// The `models` value of the defaulted mapping is the file's, or an empty list.
proof fn lemma_yaml_defaults_models(m: Seq<(Tree, Tree)>)
    ensures
        has_key(yaml_defaults(m), "models"@),
        get_key(yaml_defaults(m), "models"@) == match get_key(m, "models"@) {
            Some(v) => Some(v),
            None => Some(Tree::Array(Seq::empty())),
        },
{
    let a = ensure_key(m, "name"@, Tree::Str("OAAS"@));
    let b = ensure_key(a, "version"@, Tree::Str("0.0.1"@));
    let c = ensure_key(b, "schema"@, Tree::Str("v1"@));
    reveal_strlit("name");
    reveal_strlit("version");
    reveal_strlit("schema");
    reveal_strlit("models");
    assert("name"@.len() == 4);
    assert("models"@.len() == 6);
    assert("version"@.len() == 7);
    assert("schema"@.len() == 6);
    assert("schema"@[0] != "models"@[0]);
    lemma_get_ensure_other(m, "name"@, "models"@, Tree::Str("OAAS"@));
    lemma_get_ensure_other(a, "version"@, "models"@, Tree::Str("0.0.1"@));
    lemma_get_ensure_other(b, "schema"@, "models"@, Tree::Str("v1"@));
    lemma_get_ensure(c, "models"@, Tree::Array(Seq::empty()));
    lemma_ensure_key_has(c, "models"@, Tree::Array(Seq::empty()));
    if has_key(c, "models"@) {
        lemma_get_key_pos(c, "models"@);
    }
}

/// After a YAML merge, the Continue status check finds the OAAS entry
/// (for an untagged root whose `models`, if present, is not tagged either).
pub proof fn law_yaml_merge_then_detected(m: Seq<(Tree, Tree)>, api: Seq<char>, model: Seq<char>, probe: Seq<char>)
    requires
        !(get_key(m, "models"@) matches Some(Tree::Tagged(_, _))),
        merged_yaml(Tree::Mapping(m), api, model) is Ok,
    ensures
        yaml_has_block(merged_yaml(Tree::Mapping(m), api, model)->Ok_0, probe),
{
    let m1 = yaml_defaults(m);
    lemma_yaml_defaults_models(m);
    let p = key_pos(m1, "models"@);
    lemma_get_key_pos(m1, "models"@);
    let nv = merged_yaml_models(m1[p].1, api, model)->Some_0;
    lemma_get_update(m1, "models"@, nv);
    let s = seq![oaas_yaml_entry(api, model)] + without_oaas_yaml(m1[p].1->Array_0, api);
    assert(s[0] == oaas_yaml_entry(api, model));
    let e = oaas_yaml_entry(api, model)->Mapping_0;
    assert(e[0].0 == Tree::Str("name"@));
    lemma_get_first(e, "name"@);
    assert(is_yaml_block_item(s[0], probe));
    let t = merged_yaml(Tree::Mapping(m), api, model)->Ok_0;
    assert(merged_yaml_mapping(m, api, model) == Some(m1.update(p, (m1[p].0, nv))));
    assert(t == Tree::Mapping(m1.update(p, (m1[p].0, nv))));
    assert(nv == Tree::Array(s));
    assert(get_key(m1.update(p, (m1[p].0, nv)), "models"@) == Some(Tree::Array(s)));
    assert(0 <= 0 < s.len() && is_yaml_block_item(s[0], probe));
    assert(has_yaml_block_item(s, probe));
}

/// After a JSON merge, the Continue status check finds the OAAS entry.
pub proof fn law_json_merge_then_detected(m: Seq<(Tree, Tree)>, api: Seq<char>, model: Seq<char>, probe: Seq<char>)
    requires
        merged_json(Tree::Mapping(m), api, model) is Ok,
    ensures
        json_has_block(merged_json(Tree::Mapping(m), api, model)->Ok_0, probe),
{
    let m1 = ensure_key(m, "models"@, Tree::Array(Seq::empty()));
    lemma_ensure_key_has(m, "models"@, Tree::Array(Seq::empty()));
    let p = key_pos(m1, "models"@);
    lemma_get_key_pos(m1, "models"@);
    let s0 = m1[p].1->Array_0;
    let nv = Tree::Array(seq![oaas_json_entry(api, model)] + without_oaas_json(s0, api));
    lemma_get_update(m1, "models"@, nv);
    let s = seq![oaas_json_entry(api, model)] + without_oaas_json(s0, api);
    assert(s[0] == oaas_json_entry(api, model));
    let e = oaas_json_entry(api, model)->Mapping_0;
    lemma_get_first(e, "title"@);
    reveal_strlit("title");
    reveal_strlit("name");
    assert("title"@.len() == 5);
    assert("name"@.len() == 4);
    assert(e[1].0 == Tree::Str("name"@));
    lemma_get_second(e, "name"@);
    assert(is_oaas_json_entry(s[0], probe));
    assert(0 <= 0 < s.len() && is_oaas_json_entry(s[0], probe));
    assert(has_json_block_item(s, probe));
}

proof fn lemma_yaml_without_prepend(e: Tree, t: Seq<Tree>, api: Seq<char>)
    ensures
        without_oaas_yaml(seq![e] + t, api) == (if is_oaas_yaml_entry(e, api) {
            without_oaas_yaml(t, api)
        } else {
            seq![e] + without_oaas_yaml(t, api)
        }),
    decreases t.len(),
{
    let empty = Seq::<Tree>::empty();
    assert(without_oaas_yaml(empty, api) == empty);
    if t.len() == 0 {
        assert(seq![e] + t =~= seq![e]);
        assert(seq![e].drop_last() =~= empty);
        assert(seq![e].last() == e);
        assert(without_oaas_yaml(seq![e], api) == (if is_oaas_yaml_entry(e, api) {
            empty
        } else {
            empty.push(e)
        }));
        assert(empty.push(e) =~= seq![e] + empty);
    } else {
        let u = seq![e] + t;
        assert(u.drop_last() =~= seq![e] + t.drop_last());
        assert(u.last() == t.last());
        lemma_yaml_without_prepend(e, t.drop_last(), api);
        let r = without_oaas_yaml(u.drop_last(), api);
        assert(without_oaas_yaml(u, api) == (if is_oaas_yaml_entry(t.last(), api) {
            r
        } else {
            r.push(t.last())
        }));
        if !is_oaas_yaml_entry(e, api) {
            assert((seq![e] + without_oaas_yaml(t.drop_last(), api)).push(t.last()) =~= seq![e] + without_oaas_yaml(
                t.drop_last(),
                api,
            ).push(t.last()));
        }
    }
}

proof fn lemma_yaml_without_clean(s: Seq<Tree>, api: Seq<char>)
    ensures
        forall|i: int| 0 <= i < without_oaas_yaml(s, api).len() ==> !is_oaas_yaml_entry(
            #[trigger] without_oaas_yaml(s, api)[i],
            api,
        ),
    decreases s.len(),
{
    if s.len() > 0 {
        lemma_yaml_without_clean(s.drop_last(), api);
        let r = without_oaas_yaml(s.drop_last(), api);
        if !is_oaas_yaml_entry(s.last(), api) {
            assert forall|i: int| 0 <= i < r.push(s.last()).len() implies !is_oaas_yaml_entry(
                #[trigger] r.push(s.last())[i],
                api,
            ) by {
                if i < r.len() {
                    assert(r.push(s.last())[i] == r[i]);
                }
            }
        }
    }
}

proof fn lemma_yaml_without_fixed(s: Seq<Tree>, api: Seq<char>)
    requires
        forall|i: int| 0 <= i < s.len() ==> !is_oaas_yaml_entry(#[trigger] s[i], api),
    ensures
        without_oaas_yaml(s, api) == s,
    decreases s.len(),
{
    if s.len() > 0 {
        lemma_yaml_without_fixed(s.drop_last(), api);
        assert(s.drop_last().push(s.last()) =~= s);
    }
}

proof fn lemma_yaml_entry_is_oaas(api: Seq<char>, model: Seq<char>)
    ensures
        is_oaas_yaml_entry(oaas_yaml_entry(api, model), api),
{
    let e = oaas_yaml_entry(api, model)->Mapping_0;
    lemma_get_first(e, "name"@);
}

proof fn lemma_yaml_models_idempotent(v: Tree, api: Seq<char>, model: Seq<char>)
    requires
        merged_yaml_models(v, api, model) is Some,
    ensures
        merged_yaml_models(merged_yaml_models(v, api, model)->Some_0, api, model) == merged_yaml_models(v, api, model),
    decreases v,
{
    match v {
        Tree::Tagged(t, b) => {
            lemma_yaml_models_idempotent(*b, api, model);
        },
        Tree::Array(s) => {
            let w = without_oaas_yaml(s, api);
            lemma_yaml_entry_is_oaas(api, model);
            lemma_yaml_without_prepend(oaas_yaml_entry(api, model), w, api);
            lemma_yaml_without_clean(s, api);
            lemma_yaml_without_fixed(w, api);
        },
        _ => {},
    }
}

proof fn lemma_has_key_update(m: Seq<(Tree, Tree)>, k: Seq<char>, p: int, v: Tree)
    requires
        has_key(m, k),
        0 <= p < m.len(),
    ensures
        has_key(m.update(p, (m[p].0, v)), k),
{
    reveal(has_key);
    let i = choose|i: int| key_at(m, k, i);
    assert(key_at(m.update(p, (m[p].0, v)), k, i));
}

proof fn lemma_has_key_ensure(m: Seq<(Tree, Tree)>, k: Seq<char>, k2: Seq<char>, v: Tree)
    requires
        has_key(m, k),
    ensures
        has_key(ensure_key(m, k2, v), k),
{
    reveal(has_key);
    let i = choose|i: int| key_at(m, k, i);
    assert(key_at(ensure_key(m, k2, v), k, i));
}

proof fn lemma_yaml_defaults_keys(m: Seq<(Tree, Tree)>)
    ensures
        has_key(yaml_defaults(m), "name"@),
        has_key(yaml_defaults(m), "version"@),
        has_key(yaml_defaults(m), "schema"@),
        has_key(yaml_defaults(m), "models"@),
{
    let a = ensure_key(m, "name"@, Tree::Str("OAAS"@));
    let b = ensure_key(a, "version"@, Tree::Str("0.0.1"@));
    let c = ensure_key(b, "schema"@, Tree::Str("v1"@));
    lemma_ensure_key_has(m, "name"@, Tree::Str("OAAS"@));
    lemma_ensure_key_has(a, "version"@, Tree::Str("0.0.1"@));
    lemma_ensure_key_has(b, "schema"@, Tree::Str("v1"@));
    lemma_ensure_key_has(c, "models"@, Tree::Array(Seq::empty()));
    lemma_has_key_ensure(a, "name"@, "version"@, Tree::Str("0.0.1"@));
    lemma_has_key_ensure(b, "name"@, "schema"@, Tree::Str("v1"@));
    lemma_has_key_ensure(c, "name"@, "models"@, Tree::Array(Seq::empty()));
    lemma_has_key_ensure(b, "version"@, "schema"@, Tree::Str("v1"@));
    lemma_has_key_ensure(c, "version"@, "models"@, Tree::Array(Seq::empty()));
    lemma_has_key_ensure(c, "schema"@, "models"@, Tree::Array(Seq::empty()));
}

proof fn lemma_yaml_mapping_idempotent(m: Seq<(Tree, Tree)>, api: Seq<char>, model: Seq<char>)
    requires
        merged_yaml_mapping(m, api, model) is Some,
    ensures
        merged_yaml_mapping(merged_yaml_mapping(m, api, model)->Some_0, api, model) == merged_yaml_mapping(
            m,
            api,
            model,
        ),
{
    let m1 = yaml_defaults(m);
    lemma_yaml_defaults_keys(m);
    let p = key_pos(m1, "models"@);
    lemma_get_key_pos(m1, "models"@);
    let nv = merged_yaml_models(m1[p].1, api, model)->Some_0;
    let m2 = m1.update(p, (m1[p].0, nv));
    lemma_get_update(m1, "models"@, nv);
    lemma_has_key_update(m1, "name"@, p, nv);
    lemma_has_key_update(m1, "version"@, p, nv);
    lemma_has_key_update(m1, "schema"@, p, nv);
    assert(yaml_defaults(m2) == m2);
    lemma_yaml_models_idempotent(m1[p].1, api, model);
    assert(m2[p].1 == nv);
    assert(m2.update(p, (m2[p].0, nv)) =~= m2);
}

proof fn lemma_yaml_idempotent(root: Tree, api: Seq<char>, model: Seq<char>)
    requires
        merged_yaml(root, api, model) is Ok,
    ensures
        merged_yaml(merged_yaml(root, api, model)->Ok_0, api, model) == merged_yaml(root, api, model),
    decreases root,
{
    match root {
        Tree::Tagged(t, b) => {
            lemma_yaml_idempotent(*b, api, model);
        },
        Tree::Mapping(m) => {
            lemma_yaml_mapping_idempotent(m, api, model);
        },
        _ => {},
    }
}

/// Merging the OAAS entry into a Continue YAML document that a merge
/// produced changes nothing: a merge repeated with the same API base and
/// model gives the same document.
pub proof fn law_yaml_merge_idempotent(root: Option<Value>, api: Seq<char>, model: Seq<char>)
    requires
        merged_yaml(start_doc(root), api, model) is Ok,
    ensures
        merged_yaml(merged_yaml(start_doc(root), api, model)->Ok_0, api, model) == merged_yaml(
            start_doc(root),
            api,
            model,
        ),
{
    lemma_yaml_idempotent(start_doc(root), api, model);
}

proof fn lemma_json_without_prepend(e: Tree, t: Seq<Tree>, api: Seq<char>)
    ensures
        without_oaas_json(seq![e] + t, api) == (if is_oaas_json_entry(e, api) {
            without_oaas_json(t, api)
        } else {
            seq![e] + without_oaas_json(t, api)
        }),
    decreases t.len(),
{
    let empty = Seq::<Tree>::empty();
    assert(without_oaas_json(empty, api) == empty);
    if t.len() == 0 {
        assert(seq![e] + t =~= seq![e]);
        assert(seq![e].drop_last() =~= empty);
        assert(seq![e].last() == e);
        assert(without_oaas_json(seq![e], api) == (if is_oaas_json_entry(e, api) {
            empty
        } else {
            empty.push(e)
        }));
        assert(empty.push(e) =~= seq![e] + empty);
    } else {
        let u = seq![e] + t;
        assert(u.drop_last() =~= seq![e] + t.drop_last());
        assert(u.last() == t.last());
        lemma_json_without_prepend(e, t.drop_last(), api);
        let r = without_oaas_json(u.drop_last(), api);
        assert(without_oaas_json(u, api) == (if is_oaas_json_entry(t.last(), api) {
            r
        } else {
            r.push(t.last())
        }));
        if !is_oaas_json_entry(e, api) {
            assert((seq![e] + without_oaas_json(t.drop_last(), api)).push(t.last()) =~= seq![e] + without_oaas_json(
                t.drop_last(),
                api,
            ).push(t.last()));
        }
    }
}

proof fn lemma_json_without_clean(s: Seq<Tree>, api: Seq<char>)
    ensures
        forall|i: int| 0 <= i < without_oaas_json(s, api).len() ==> !is_oaas_json_entry(
            #[trigger] without_oaas_json(s, api)[i],
            api,
        ),
    decreases s.len(),
{
    if s.len() > 0 {
        lemma_json_without_clean(s.drop_last(), api);
        let r = without_oaas_json(s.drop_last(), api);
        if !is_oaas_json_entry(s.last(), api) {
            assert forall|i: int| 0 <= i < r.push(s.last()).len() implies !is_oaas_json_entry(
                #[trigger] r.push(s.last())[i],
                api,
            ) by {
                if i < r.len() {
                    assert(r.push(s.last())[i] == r[i]);
                }
            }
        }
    }
}

proof fn lemma_json_without_fixed(s: Seq<Tree>, api: Seq<char>)
    requires
        forall|i: int| 0 <= i < s.len() ==> !is_oaas_json_entry(#[trigger] s[i], api),
    ensures
        without_oaas_json(s, api) == s,
    decreases s.len(),
{
    if s.len() > 0 {
        lemma_json_without_fixed(s.drop_last(), api);
        assert(s.drop_last().push(s.last()) =~= s);
    }
}

/// Merging the OAAS entry into a Continue JSON document that a merge
/// produced changes nothing: a merge repeated with the same API base and
/// model gives the same document.
pub proof fn law_json_merge_idempotent(root: Option<Value>, api: Seq<char>, model: Seq<char>)
    requires
        merged_json(start_doc(root), api, model) is Ok,
    ensures
        merged_json(merged_json(start_doc(root), api, model)->Ok_0, api, model) == merged_json(
            start_doc(root),
            api,
            model,
        ),
{
    let o = start_doc(root)->Mapping_0;
    let o1 = ensure_key(o, "models"@, Tree::Array(Seq::empty()));
    lemma_ensure_key_has(o, "models"@, Tree::Array(Seq::empty()));
    let p = key_pos(o1, "models"@);
    lemma_get_key_pos(o1, "models"@);
    let s0 = o1[p].1->Array_0;
    let w = without_oaas_json(s0, api);
    let e = oaas_json_entry(api, model);
    let nv = Tree::Array(seq![e] + w);
    let o2 = o1.update(p, (o1[p].0, nv));
    lemma_get_update(o1, "models"@, nv);
    assert(ensure_key(o2, "models"@, Tree::Array(Seq::empty())) == o2);
    lemma_get_first(e->Mapping_0, "title"@);
    reveal_strlit("title");
    reveal_strlit("name");
    assert("title"@.len() == 5);
    assert("name"@.len() == 4);
    lemma_get_second(e->Mapping_0, "name"@);
    assert(is_oaas_json_entry(e, api));
    lemma_json_without_prepend(e, w, api);
    lemma_json_without_clean(s0, api);
    lemma_json_without_fixed(w, api);
    assert(o2[p].1 == nv);
    assert(o2.update(p, (o2[p].0, nv)) =~= o2);
}

/// Whether an existing Continue file (YAML, else JSON; `None`: unreadable)
/// names the OAAS entry for `api`.
pub open spec fn continue_has_oaas_of(
    yaml_exists: bool,
    yaml_doc: Option<Value>,
    json_exists: bool,
    json_doc: Option<Value>,
    api: Seq<char>,
) -> bool {
    let a = trim_end_char(api, '/');
    ||| yaml_exists && (yaml_doc matches Some(v) && yaml_has_block(v.model(), a))
    ||| json_exists && (json_doc matches Some(v) && json_has_block(v.model(), a))
}

/// An OAAS entry in either existing Continue file is detected: a
/// `config.json` that exists and holds the entry for `api` is enough, and so
/// is a `config.yaml`; when neither file holds it, nothing is detected.
pub proof fn law_oaas_entry_detected_in_either_file(
    yaml_exists: bool,
    yaml_doc: Option<Value>,
    json_exists: bool,
    json_doc: Option<Value>,
    api: Seq<char>,
)
    ensures
        (json_exists && (json_doc matches Some(v) && json_has_block(v.model(), trim_end_char(api, '/'))))
            ==> continue_has_oaas_of(yaml_exists, yaml_doc, json_exists, json_doc, api),
        (yaml_exists && (yaml_doc matches Some(v) && yaml_has_block(v.model(), trim_end_char(api, '/'))))
            ==> continue_has_oaas_of(yaml_exists, yaml_doc, json_exists, json_doc, api),
        continue_has_oaas_of(yaml_exists, yaml_doc, json_exists, json_doc, api) ==> ((json_exists
            && (json_doc matches Some(v) && json_has_block(v.model(), trim_end_char(api, '/')))) || (yaml_exists
            && (yaml_doc matches Some(v) && yaml_has_block(v.model(), trim_end_char(api, '/'))))),
{
}

/// A `config.json` that a JSON merge for `api` wrote is detected as holding
/// the OAAS entry, whatever the YAML file is, and even when it is the only
/// Continue file.
pub proof fn law_json_merge_then_status_detects(
    root: Option<Value>,
    api: Seq<char>,
    model: Seq<char>,
    written: Value,
    yaml_exists: bool,
    yaml_doc: Option<Value>,
)
    requires
        merged_json(start_doc(root), trim_end_char(api, '/'), model) is Ok,
        written.model() == merged_json(start_doc(root), trim_end_char(api, '/'), model)->Ok_0,
    ensures
        continue_has_oaas_of(yaml_exists, yaml_doc, true, Some(written), api),
{
    let a = trim_end_char(api, '/');
    let m = start_doc(root)->Mapping_0;
    law_json_merge_then_detected(m, a, model, a);
}

/// Whether an existing Continue file names the OAAS entry for `api`.
pub fn has_oaas_entry(
    yaml_exists: bool,
    yaml_doc: &Option<Value>,
    json_exists: bool,
    json_doc: &Option<Value>,
    api: &str,
) -> (r: bool)
    ensures
        r == continue_has_oaas_of(yaml_exists, *yaml_doc, json_exists, *json_doc, api@),
{
    (yaml_exists && continue_yaml_has_oaas_block(yaml_doc.as_ref(), api)) || (json_exists
        && continue_json_has_oaas_block(json_doc.as_ref(), api))
}

// ---------------------------------------------------------------------------
// Status of the Continue integration, and the editors
// ---------------------------------------------------------------------------

/// The status `GET /oaas/ide/continue-status` answers.
#[derive(Debug, Clone, PartialEq, Eq)]
pub struct ContinueIdeStatus {
    /// `global` or `workspace`: where the paths below and the writes go.
    pub active_scope: String,
    /// The project root, when one was given.
    pub workspace_root: Option<String>,
    /// The global `~/.continue` files, always.
    pub global_continue_yaml: String,
    pub global_continue_json: String,
    /// The files of the active scope.
    pub continue_yaml: String,
    pub continue_json: String,
    pub yaml_exists: bool,
    pub json_exists: bool,
    pub write_target: String,
    pub preferred: String,
    pub has_oaas_block: bool,
    pub api_base_target: String,
    /// For `code`, `codium` and `cursor` (in that order): whether the
    /// command is on `PATH`.
    pub editors: Vec<(String, bool)>,
}

/// What was read of the active scope's Continue files.
#[derive(Debug, PartialEq, Eq)]
pub struct ContinueFiles {
    /// Whether `config.yaml` is a regular file.
    pub yaml_exists: bool,
    /// Whether `config.json` is a regular file.
    pub json_exists: bool,
    /// `config.yaml`, parsed (`None`: unreadable).
    pub yaml_doc: Option<Value>,
    /// `config.json`, parsed (`None`: unreadable).
    pub json_doc: Option<Value>,
}

/// The Continue directory of the active scope: `<workspace>/.continue`, or
/// `~/.continue`.
pub open spec fn scope_dir(workspace_root: Option<&str>, home: Seq<char>) -> Seq<char> {
    match workspace_root {
        Some(w) => path_join(w@, ".continue"@),
        None => path_join(home, ".continue"@),
    }
}

/// The `config.yaml` and `config.json` of the active scope, for the caller
/// to inspect; an error when `HOME` is unset.
pub fn continue_scope_files(workspace_root: Option<&str>, env: &EnvVars) -> (r: Result<(String, String), OaasError>)
    ensures
        match env.home {
            None => r matches Err(e) && e.model() == ErrorModel::Config(no_home_continue_msg()),
            Some(h) => r matches Ok(p) && p.0@ == path_join(scope_dir(workspace_root, h@), "config.yaml"@) && p.1@
                == path_join(scope_dir(workspace_root, h@), "config.json"@),
        },
{
    let g = continue_global_dir(env)?;
    let d = match workspace_root {
        Some(w) => workspace_continue_dir(w),
        None => g,
    };
    Ok((join(d.as_str(), "config.yaml"), join(d.as_str(), "config.json")))
}

/// Which Continue file the status calls preferred.
pub open spec fn preferred_file(yaml_exists: bool, json_exists: bool) -> Seq<char> {
    if yaml_exists {
        "yaml"@
    } else if json_exists {
        "json"@
    } else {
        "none_yet_defaults_json"@
    }
}

/// Whether each editor command is on `PATH`: `code`, `codium`, `cursor`.
fn editors_on_path() -> (v: Vec<(String, bool)>)
    ensures
        v@.len() == 3,
        v@[0].0@ == "code"@,
        v@[1].0@ == "codium"@,
        v@[2].0@ == "cursor"@,
{
    let mut v: Vec<(String, bool)> = Vec::new();
    v.push((owned("code"), which_path("code").is_some()));
    v.push((owned("codium"), which_path("codium").is_some()));
    v.push((owned("cursor"), which_path("cursor").is_some()));
    v
}

/// The status of the Continue integration for `api_base_target`, in the
/// scope of `workspace_root` (the global one when `None`), from what was
/// read of that scope's files. Which editors are on `PATH` depends on the
/// machine: only the editors listed are stated.
pub fn build_continue_ide_status(
    api_base_target: &str,
    workspace_root: Option<&str>,
    env: &EnvVars,
    files: ContinueFiles,
) -> (r: Result<ContinueIdeStatus, OaasError>)
    ensures
        match env.home {
            None => r matches Err(e) && e.model() == ErrorModel::Config(no_home_continue_msg()),
            Some(h) => r matches Ok(s) && {
                let d = scope_dir(workspace_root, h@);
                &&& s.active_scope@ == (if workspace_root is Some {
                    "workspace"@
                } else {
                    "global"@
                })
                &&& match workspace_root {
                    Some(w) => s.workspace_root matches Some(x) && x@ == w@,
                    None => s.workspace_root is None,
                }
                &&& s.global_continue_yaml@ == path_join(path_join(h@, ".continue"@), "config.yaml"@)
                &&& s.global_continue_json@ == path_join(path_join(h@, ".continue"@), "config.json"@)
                &&& s.continue_yaml@ == path_join(d, "config.yaml"@)
                &&& s.continue_json@ == path_join(d, "config.json"@)
                &&& s.yaml_exists == files.yaml_exists
                &&& s.json_exists == files.json_exists
                &&& s.write_target@ == picked_config(d, files.yaml_exists, files.json_exists)
                &&& s.preferred@ == preferred_file(files.yaml_exists, files.json_exists)
                &&& s.has_oaas_block == continue_has_oaas_of(
                    files.yaml_exists,
                    files.yaml_doc,
                    files.json_exists,
                    files.json_doc,
                    api_base_target@,
                )
                &&& s.api_base_target@ == api_base_target@
                &&& s.editors@.len() == 3
                &&& s.editors@[0].0@ == "code"@
                &&& s.editors@[1].0@ == "codium"@
                &&& s.editors@[2].0@ == "cursor"@
            },
        },
{
    let global_continue_yaml = continue_global_yaml_path(env)?;
    let global_continue_json = continue_global_json_path(env)?;
    let (continue_yaml, continue_json) = continue_scope_files(workspace_root, env)?;
    let d = match workspace_root {
        Some(w) => workspace_continue_dir(w),
        None => continue_global_dir(env)?,
    };
    let write_target = pick_continue_config_path(d.as_str(), files.yaml_exists, files.json_exists);
    let preferred = if files.yaml_exists {
        owned("yaml")
    } else if files.json_exists {
        owned("json")
    } else {
        owned("none_yet_defaults_json")
    };
    let has_oaas_block = has_oaas_entry(
        files.yaml_exists,
        &files.yaml_doc,
        files.json_exists,
        &files.json_doc,
        api_base_target,
    );
    let active_scope = if workspace_root.is_some() {
        owned("workspace")
    } else {
        owned("global")
    };
    let ws = match workspace_root {
        Some(w) => Some(owned(w)),
        None => None,
    };
    Ok(
        ContinueIdeStatus {
            active_scope,
            workspace_root: ws,
            global_continue_yaml,
            global_continue_json,
            continue_yaml,
            continue_json,
            yaml_exists: files.yaml_exists,
            json_exists: files.json_exists,
            write_target,
            preferred,
            has_oaas_block,
            api_base_target: owned(api_base_target),
            editors: editors_on_path(),
        },
    )
}

/// The command of an editor the dashboard can open a folder with.
pub open spec fn editor_bin(editor: Seq<char>) -> Option<Seq<char>> {
    if editor == "code"@ || editor == "cursor"@ || editor == "codium"@ {
        Some(editor)
    } else {
        None
    }
}

pub open spec fn unknown_editor_msg(editor: Seq<char>) -> Seq<char> {
    "éditeur « "@ + editor + " » inconnu — utilise code, cursor ou codium"@
}

pub open spec fn editor_missing_msg(bin: Seq<char>) -> Seq<char> {
    "exécutable « "@ + bin
        + " » introuvable dans le PATH — installe VS Code / Cursor / VSCodium ou ajoute la commande shell."@
}

/// The command that opens a folder with `editor` (`code`, `cursor` or
/// `codium`), once it is found on `PATH`; whether it is found depends on the
/// machine.
pub fn editor_command(editor: &str) -> (r: Result<String, OaasError>)
    ensures
        match editor_bin(editor@) {
            None => r matches Err(e) && e.model() == ErrorModel::Config(unknown_editor_msg(editor@)),
            Some(b) => (r matches Ok(c) && c@ == b) || (r matches Err(e) && e.model() == ErrorModel::Backend(
                editor_missing_msg(b),
            )),
        },
{
    if !(str_eq(editor, "code") || str_eq(editor, "cursor") || str_eq(editor, "codium")) {
        return Err(
            OaasError::Config(owned("éditeur « ").concat(editor).concat(" » inconnu — utilise code, cursor ou codium")),
        );
    }
    match which_path(editor) {
        Some(_) => Ok(owned(editor)),
        None => Err(
            OaasError::Backend(
                owned("exécutable « ").concat(editor).concat(
                    " » introuvable dans le PATH — installe VS Code / Cursor / VSCodium ou ajoute la commande shell.",
                ),
            ),
        ),
    }
}

/// The message once `bin` was started on `folder`: `<bin> « <folder> »`.
pub fn editor_launched_message(bin: &str, folder: &str) -> (s: String)
    ensures
        s@ == bin@ + " « "@ + folder@ + " »"@,
{
    owned(bin).concat(" « ").concat(folder).concat(" »")
}

/// Where an existing Continue file `path` is copied before a merge:
/// `<name>.oaas-backup.<ts>` beside it (`config` when it has no file name,
/// in `.` when it has no parent).
pub open spec fn backup_path_of(path: Seq<char>, ts: u64) -> Seq<char> {
    let name = match path_file_name(path) {
        Some(n) => n,
        None => "config"@,
    };
    let dir = match path_parent(path) {
        Some(d) => d,
        None => "."@,
    };
    path_join(dir, name + ".oaas-backup."@ + decimal(ts as nat))
}

/// Where an existing Continue file `path` is copied before a merge made at
/// time `ts` (seconds since the Unix epoch).
pub fn backup_path(path: &str, ts: u64) -> (r: String)
    ensures
        r@ == backup_path_of(path@, ts),
{
    backup_path_from(file_name_of(path), parent_of(path), ts)
}

/// The backup of a Continue file, from its file name and parent (as
/// `Path::file_name` and `Path::parent` give them) and the time `ts`.
pub fn backup_path_from(name: Option<String>, parent: Option<String>, ts: u64) -> (r: String)
    ensures
        r@ == path_join(
            match parent {
                Some(d) => d@,
                None => "."@,
            },
            match name {
                Some(n) => n@,
                None => "config"@,
            } + ".oaas-backup."@ + decimal(ts as nat),
        ),
{
    let name = match name {
        Some(n) => n,
        None => owned("config"),
    };
    let dir = match parent {
        Some(d) => d,
        None => owned("."),
    };
    let t = fmt_u64(ts);
    let file = name.concat(".oaas-backup.").concat(t.as_str());
    join(dir.as_str(), file.as_str())
}

} // verus!
