//! The Continue and editor endpoints of the dashboard (`/oaas/ide/*`): the
//! request bodies, the checks on a project folder, and the answers.
use vstd::prelude::*;

use crate::continue_ide::{no_home_continue_msg, picked_config, resolve_continue_write_path};
use crate::doc::{entry_models, lemma_entry_models_push, str_value, Tree, Value};
use crate::error::{ErrorModel, OaasError};
use crate::paths::{join, path_join, path_starts_with, starts_with_path, EnvVars};
use crate::text::{has_prefix, owned, strip_prefix, to_chars};

verus! {

/// Body of `POST /oaas/ide/apply-continue`.
#[derive(Debug, Clone, PartialEq, Eq)]
pub struct ApplyContinueBody {
    /// The model id to name; when absent or empty, the first model that
    /// `llama-server` lists (`GET /v1/models`).
    pub model: Option<String>,
    /// The project whose `.continue` configuration is written (a folder
    /// under `$HOME`, `~/` allowed); the global one when absent.
    pub workspace: Option<String>,
}

/// Body of `POST /oaas/ide/open-folder`.
#[derive(Debug, Clone, PartialEq, Eq)]
pub struct OpenFolderBody {
    pub path: String,
    /// `code`, `cursor` or `codium`.
    pub editor: String,
}

/// The model id the body asks for, when it is given and not empty.
pub fn chosen_model(model: &Option<String>) -> (r: Option<String>)
    ensures
        match model {
            Some(m) => if m@.len() > 0 {
                r matches Some(x) && x@ == m@
            } else {
                r is None
            },
            None => r is None,
        },
{
    match model {
        Some(m) => if to_chars(m.as_str()).len() > 0 {
            Some(owned(m.as_str()))
        } else {
            None
        },
        None => None,
    }
}

/// The Continue file a merge writes to, and whether it is the JSON one:
/// in the active scope (`workspace_root`, else `~/.continue`), given which of
/// its `config.yaml` and `config.json` are regular files.
pub fn continue_write_target(
    workspace_root: Option<&str>,
    env: &EnvVars,
    yaml_is_file: bool,
    json_is_file: bool,
) -> (r: Result<(String, bool), OaasError>)
    ensures
        match workspace_root {
            Some(w) => r matches Ok(t) && t.0@ == picked_config(path_join(w@, ".continue"@), yaml_is_file, json_is_file),
            None => match env.home {
                Some(h) => r matches Ok(t) && t.0@ == picked_config(
                    path_join(h@, ".continue"@),
                    yaml_is_file,
                    json_is_file,
                ),
                None => r matches Err(e) && e.model() == ErrorModel::Config(no_home_continue_msg()),
            },
        },
        r matches Ok(t) ==> t.1 == !yaml_is_file,
{
    let path = resolve_continue_write_path(workspace_root, env, yaml_is_file, json_is_file)?;
    Ok((path, !yaml_is_file))
}

pub open spec fn home_unset_msg() -> Seq<char> {
    "HOME non défini — ouverture de dossier refusée."@
}

/// A project path with a leading `~/` taken under `home`; an error when
/// `HOME` is unset.
pub fn expand_project_path(home: &Option<String>, path_str: &str) -> (r: Result<String, OaasError>)
    ensures
        match home {
            None => r matches Err(e) && e.model() == ErrorModel::Config(home_unset_msg()),
            Some(h) => r matches Ok(p) && p@ == (if has_prefix(path_str@, "~/"@) {
                path_join(h@, path_str@.skip("~/"@.len() as int))
            } else {
                path_str@
            }),
        },
{
    match home {
        None => Err(OaasError::config("HOME non défini — ouverture de dossier refusée.")),
        Some(h) => match strip_prefix(path_str, "~/") {
            Some(rest) => Ok(join(h.as_str(), rest.as_str())),
            None => Ok(owned(path_str)),
        },
    }
}

/// The error for a project path that is not a directory.
pub open spec fn not_a_dir_msg(p: Seq<char>) -> Seq<char> {
    "« "@ + p + " » n’est pas un répertoire."@
}

/// A project path must name a directory (`is_dir`).
pub fn require_directory(expanded: &str, is_dir: bool) -> (r: Result<(), OaasError>)
    ensures
        is_dir <==> r is Ok,
        r matches Err(e) ==> e.model() == ErrorModel::Config(not_a_dir_msg(expanded@)),
{
    if is_dir {
        Ok(())
    } else {
        Err(OaasError::Config(owned("« ").concat(expanded).concat(" » n’est pas un répertoire.")))
    }
}

pub open spec fn outside_home_msg() -> Seq<char> {
    "Pour des raisons de sécurité, seuls les dossiers sous $HOME sont acceptés."@
}

/// A canonical project folder is accepted only under the canonical home.
pub fn require_under_home(canon: &str, home_canon: &str) -> (r: Result<String, OaasError>)
    ensures
        path_starts_with(canon@, home_canon@) ==> (r matches Ok(p) && p@ == canon@),
        !path_starts_with(canon@, home_canon@) ==> (r matches Err(e) && e.model() == ErrorModel::Config(
            outside_home_msg(),
        )),
{
    if starts_with_path(canon, home_canon) {
        Ok(owned(canon))
    } else {
        Err(OaasError::config("Pour des raisons de sécurité, seuls les dossiers sous $HOME sont acceptés."))
    }
}

/// The answer of `POST /oaas/ide/apply-continue`:
/// `{"ok": true, "message": …, "model": …, "continue_config": …}`.
pub open spec fn apply_answer(message: Seq<char>, model: Seq<char>, config: Seq<char>) -> Tree {
    Tree::Mapping(
        seq![
            (Tree::Str("ok"@), Tree::Bool(true)),
            (Tree::Str("message"@), Tree::Str(message)),
            (Tree::Str("model"@), Tree::Str(model)),
            (Tree::Str("continue_config"@), Tree::Str(config)),
        ],
    )
}

/// The answer of `POST /oaas/ide/apply-continue`.
pub fn apply_continue_response(message: &str, model: &str, config: &str) -> (v: Value)
    ensures
        v.model() == apply_answer(message@, model@, config@),
{
    let mut m: Vec<(Value, Value)> = Vec::new();
    let e0 = (str_value("ok"), Value::Bool(true));
    let e1 = (str_value("message"), str_value(message));
    let e2 = (str_value("model"), str_value(model));
    let e3 = (str_value("continue_config"), str_value(config));
    proof {
        lemma_entry_models_push(m@, e0);
        lemma_entry_models_push(m@.push(e0), e1);
        lemma_entry_models_push(m@.push(e0).push(e1), e2);
        lemma_entry_models_push(m@.push(e0).push(e1).push(e2), e3);
    }
    m.push(e0);
    m.push(e1);
    m.push(e2);
    m.push(e3);
    assert(entry_models(m@) =~= seq![
        (Tree::Str("ok"@), Tree::Bool(true)),
        (Tree::Str("message"@), Tree::Str(message@)),
        (Tree::Str("model"@), Tree::Str(model@)),
        (Tree::Str("continue_config"@), Tree::Str(config@)),
    ]);
    Value::Mapping(m)
}

/// The answer of `POST /oaas/ide/open-folder`:
/// `{"ok": true, "message": …, "folder": …}`.
pub open spec fn open_folder_answer(message: Seq<char>, folder: Seq<char>) -> Tree {
    Tree::Mapping(
        seq![
            (Tree::Str("ok"@), Tree::Bool(true)),
            (Tree::Str("message"@), Tree::Str(message)),
            (Tree::Str("folder"@), Tree::Str(folder)),
        ],
    )
}

/// The answer of `POST /oaas/ide/open-folder`.
pub fn open_folder_response(message: &str, folder: &str) -> (v: Value)
    ensures
        v.model() == open_folder_answer(message@, folder@),
{
    let mut m: Vec<(Value, Value)> = Vec::new();
    let e0 = (str_value("ok"), Value::Bool(true));
    let e1 = (str_value("message"), str_value(message));
    let e2 = (str_value("folder"), str_value(folder));
    proof {
        lemma_entry_models_push(m@, e0);
        lemma_entry_models_push(m@.push(e0), e1);
        lemma_entry_models_push(m@.push(e0).push(e1), e2);
    }
    m.push(e0);
    m.push(e1);
    m.push(e2);
    assert(entry_models(m@) =~= seq![
        (Tree::Str("ok"@), Tree::Bool(true)),
        (Tree::Str("message"@), Tree::Str(message@)),
        (Tree::Str("folder"@), Tree::Str(folder@)),
    ]);
    Value::Mapping(m)
}

} // verus!
