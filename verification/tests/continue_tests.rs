use oaas::continue_ide::{
    backup_path_from, build_continue_ide_status, continue_global_dir, continue_json_has_oaas_block,
    continue_resolve_write_path, continue_scope_files, continue_yaml_has_oaas_block, editor_command,
    editor_launched_message, first_model_id, json_merge_message, merge_oaas_into_continue_json,
    merge_oaas_into_continue_yaml, pick_continue_config_path, resolve_continue_write_path, workspace_continue_dir,
    yaml_merge_message, ContinueFiles,
};
use oaas::doc::Value;
use oaas::error::OaasError;
use oaas::paths::EnvVars;

fn s(x: &str) -> Value {
    Value::Str(x.to_string())
}

fn map(entries: Vec<(&str, Value)>) -> Value {
    Value::Mapping(entries.into_iter().map(|(k, v)| (s(k), v)).collect())
}

fn env() -> EnvVars {
    EnvVars { home: Some("/home/u".to_string()), xdg_config_home: None, xdg_data_home: None }
}

fn no_home() -> EnvVars {
    EnvVars { home: None, xdg_config_home: None, xdg_data_home: None }
}

#[test]
fn continue_paths() {
    assert_eq!(continue_global_dir(&env()).unwrap(), "/home/u/.continue");
    assert_eq!(
        continue_global_dir(&no_home()).unwrap_err(),
        OaasError::Config("HOME non défini — impossible de localiser ~/.continue".to_string())
    );
    assert_eq!(workspace_continue_dir("/w"), "/w/.continue");
    assert_eq!(pick_continue_config_path("/d", true, true), "/d/config.yaml");
    assert_eq!(pick_continue_config_path("/d", false, true), "/d/config.json");
    assert_eq!(pick_continue_config_path("/d", false, false), "/d/config.json");
    assert_eq!(continue_resolve_write_path(&env(), false, true).unwrap(), "/home/u/.continue/config.json");
    assert_eq!(resolve_continue_write_path(Some("/w"), &no_home(), false, false).unwrap(), "/w/.continue/config.json");
}

#[test]
fn yaml_merge_on_new_file_then_detected() {
    let out = merge_oaas_into_continue_yaml(None, "http://127.0.0.1:11435/v1/", "qwen").unwrap();
    let entry = map(vec![
        ("name", s("OAAS (local)")),
        ("provider", s("openai")),
        ("model", s("qwen")),
        ("apiBase", s("http://127.0.0.1:11435/v1")),
        ("apiKey", s("local")),
        ("roles", Value::Array(vec![s("chat")])),
    ]);
    let expected = map(vec![
        ("name", s("OAAS")),
        ("version", s("0.0.1")),
        ("schema", s("v1")),
        ("models", Value::Array(vec![entry])),
    ]);
    assert_eq!(out, expected);
    assert!(continue_yaml_has_oaas_block(Some(&out), "http://127.0.0.1:11435/v1"));
    assert!(!continue_yaml_has_oaas_block(None, "http://127.0.0.1:11435/v1"));
}

#[test]
fn yaml_merge_replaces_old_entry_and_keeps_others() {
    let other = map(vec![("name", s("Other")), ("apiBase", s("http://x/v1"))]);
    let old = map(vec![("name", s("Old")), ("apiBase", s("http://127.0.0.1:11435/v1//"))]);
    let doc = map(vec![("models", Value::Array(vec![old, other.clone_value()]))]);
    let out = merge_oaas_into_continue_yaml(Some(doc), "http://127.0.0.1:11435/v1", "m").unwrap();
    match out {
        Value::Mapping(m) => {
            let models = m.iter().find(|(k, _)| *k == s("models")).map(|(_, v)| v).unwrap();
            match models {
                Value::Array(items) => {
                    assert_eq!(items.len(), 2);
                    assert_eq!(items[1], other);
                }
                _ => panic!("models is not a list"),
            }
        }
        _ => panic!("root is not a mapping"),
    }
}

trait CloneValue {
    fn clone_value(&self) -> Value;
}

impl CloneValue for Value {
    fn clone_value(&self) -> Value {
        match self {
            Value::Null => Value::Null,
            Value::Bool(b) => Value::Bool(*b),
            Value::Num(n) => Value::Num(n.clone()),
            Value::Str(x) => Value::Str(x.clone()),
            Value::Array(v) => Value::Array(v.iter().map(|x| x.clone_value()).collect()),
            Value::Mapping(m) => Value::Mapping(m.iter().map(|(k, v)| (k.clone_value(), v.clone_value())).collect()),
            Value::Tagged(t, b) => Value::Tagged(t.clone(), Box::new(b.clone_value())),
        }
    }
}

#[test]
fn yaml_merge_errors() {
    assert_eq!(
        merge_oaas_into_continue_yaml(Some(s("x")), "a", "m").unwrap_err(),
        OaasError::Config("Racine de config.yaml Continue doit être un objet (mapping YAML).".to_string())
    );
    assert_eq!(
        merge_oaas_into_continue_yaml(Some(map(vec![("models", s("x"))])), "a", "m").unwrap_err(),
        OaasError::Config("Champ « models » de Continue doit être une liste.".to_string())
    );
}

#[test]
fn json_merge_then_detected() {
    let out = merge_oaas_into_continue_json(None, "http://h/v1", "m").unwrap();
    let entry = map(vec![
        ("title", s("OAAS (local)")),
        ("name", s("OAAS (local)")),
        ("provider", s("openai")),
        ("model", s("m")),
        ("apiBase", s("http://h/v1")),
        ("apiKey", s("local")),
    ]);
    assert_eq!(out, map(vec![("models", Value::Array(vec![entry]))]));
    assert!(continue_json_has_oaas_block(Some(&out), "http://h/v1/"));
    assert_eq!(
        merge_oaas_into_continue_json(Some(Value::Array(vec![])), "a", "m").unwrap_err(),
        OaasError::Config("Racine de config.json Continue doit être un objet.".to_string())
    );
    assert_eq!(
        merge_oaas_into_continue_json(Some(map(vec![("models", s("x"))])), "a", "m").unwrap_err(),
        OaasError::Config("Champ « models » doit être un tableau JSON.".to_string())
    );
}

#[test]
fn merge_messages() {
    assert_eq!(
        yaml_merge_message("/c.yaml"),
        "Bloc « OAAS (local) » écrit en tête de « /c.yaml » (sauvegarde .oaas-backup.* si fichier existait). Recharge la fenêtre Continue / VS Code."
    );
    assert_eq!(json_merge_message("/c.json"), "Entrée « OAAS (local) » fusionnée dans « /c.json » (backup .oaas-backup.* si besoin).");
}

#[test]
fn first_model_id_of_models_answer() {
    let v = map(vec![("data", Value::Array(vec![map(vec![("id", s("qwen"))])]))]);
    assert_eq!(first_model_id(&v).unwrap(), "qwen");
    let e = first_model_id(&map(vec![("data", Value::Array(vec![]))])).unwrap_err();
    assert_eq!(
        e,
        OaasError::Backend("Réponse /v1/models sans id exploitable — indique le modèle manuellement depuis l’UI.".to_string())
    );
}

#[test]
fn ide_status_in_workspace() {
    let files = ContinueFiles { yaml_exists: false, json_exists: true, yaml_doc: None, json_doc: None };
    let st = build_continue_ide_status("http://h/v1", Some("/w"), &env(), files).unwrap();
    assert_eq!(st.active_scope, "workspace");
    assert_eq!(st.workspace_root.as_deref(), Some("/w"));
    assert_eq!(st.global_continue_yaml, "/home/u/.continue/config.yaml");
    assert_eq!(st.continue_json, "/w/.continue/config.json");
    assert_eq!(st.write_target, "/w/.continue/config.json");
    assert_eq!(st.preferred, "json");
    assert!(!st.has_oaas_block);
    let keys: Vec<&str> = st.editors.iter().map(|(k, _)| k.as_str()).collect();
    assert_eq!(keys, vec!["code", "codium", "cursor"]);
    let files = ContinueFiles { yaml_exists: false, json_exists: false, yaml_doc: None, json_doc: None };
    let e = build_continue_ide_status("http://h/v1", None, &no_home(), files).unwrap_err();
    assert_eq!(e, OaasError::Config("HOME non défini — impossible de localiser ~/.continue".to_string()));
}

#[test]
fn ide_status_global_scope() {
    let files = ContinueFiles { yaml_exists: false, json_exists: false, yaml_doc: None, json_doc: None };
    let st = build_continue_ide_status("http://h/v1", None, &env(), files).unwrap();
    assert_eq!(st.active_scope, "global");
    assert_eq!(st.preferred, "none_yet_defaults_json");
    assert_eq!(st.write_target, "/home/u/.continue/config.json");
    let (y, j) = continue_scope_files(None, &env()).unwrap();
    assert_eq!((y.as_str(), j.as_str()), ("/home/u/.continue/config.yaml", "/home/u/.continue/config.json"));
}

#[test]
fn editors_and_backups() {
    assert_eq!(
        editor_command("vim").unwrap_err(),
        OaasError::Config("éditeur « vim » inconnu — utilise code, cursor ou codium".to_string())
    );
    match editor_command("code") {
        Ok(c) => assert_eq!(c, "code"),
        Err(e) => assert_eq!(
            e,
            OaasError::Backend(
                "exécutable « code » introuvable dans le PATH — installe VS Code / Cursor / VSCodium ou ajoute la commande shell."
                    .to_string()
            )
        ),
    }
    assert_eq!(editor_launched_message("code", "/home/u/p"), "code « /home/u/p »");
    assert_eq!(
        backup_path_from(Some("config.yaml".to_string()), Some("/home/u/.continue".to_string()), 1700000000),
        "/home/u/.continue/config.yaml.oaas-backup.1700000000"
    );
    assert_eq!(backup_path_from(None, None, 5), "./config.oaas-backup.5");
}

#[test]
fn merging_twice_changes_nothing() {
    let doc = map(vec![("models", Value::Array(vec![map(vec![("name", s("Other"))])]))]);
    let once = merge_oaas_into_continue_yaml(Some(doc), "http://h/v1", "m").unwrap();
    let twice = merge_oaas_into_continue_yaml(Some(once.clone_value()), "http://h/v1", "m").unwrap();
    assert_eq!(once, twice);
    let once = merge_oaas_into_continue_json(None, "http://h/v1", "m").unwrap();
    let twice = merge_oaas_into_continue_json(Some(once.clone_value()), "http://h/v1/", "m").unwrap();
    assert_eq!(once, twice);
}
