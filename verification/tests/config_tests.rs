use oaas::config::{
    default_config_path, default_pc_device, default_pc_model, default_pc_timeout, default_pc_use2,
    patch_profile_model_path, patch_prompt_compression_enabled, Profile, Profiles, PromptCompressionConfig,
};
use oaas::doc::Value;
use oaas::error::OaasError;
use oaas::paths::EnvVars;

fn s(x: &str) -> Value {
    Value::Str(x.to_string())
}

fn map(entries: Vec<(&str, Value)>) -> Value {
    Value::Mapping(entries.into_iter().map(|(k, v)| (s(k), v)).collect())
}

fn profile(model: &str) -> Profile {
    Profile { model: model.to_string(), internal_port: 8081, ctx_size: 8192, n_gpu_layers: -1, extra_args: vec![] }
}

#[test]
fn defaults_of_prompt_compression() {
    assert_eq!(default_pc_timeout(), 180);
    assert!(default_pc_use2());
    assert_eq!(default_pc_device(), "cpu");
    assert!(!default_pc_model().is_empty());
    let pc = PromptCompressionConfig::default();
    assert!(!pc.enabled && pc.strict && pc.command.is_empty());
    assert_eq!(pc.timeout_secs, 180);
}

#[test]
fn config_path_follows_xdg() {
    let env = EnvVars { home: Some("/home/u".to_string()), xdg_config_home: None, xdg_data_home: None };
    assert_eq!(default_config_path(&env), "/home/u/.config/oaas/config.yaml");
    let env = EnvVars { home: Some("/home/u".to_string()), xdg_config_home: Some("/cfg".to_string()), xdg_data_home: None };
    assert_eq!(default_config_path(&env), "/cfg/oaas/config.yaml");
}

#[test]
fn profiles_insert_then_get() {
    let mut t = Profiles::new();
    t.insert("z".to_string(), profile("/z.gguf"));
    t.insert("a".to_string(), profile("/a.gguf"));
    t.insert("z".to_string(), profile("/z2.gguf"));
    assert_eq!(t.len(), 2);
    assert_eq!(t.names_list(), vec!["a".to_string(), "z".to_string()]);
    assert_eq!(t.get("z").map(|p| p.model.clone()), Some("/z2.gguf".to_string()));
    assert!(t.get("missing").is_none());
}

#[test]
fn patch_model_reads_back() {
    let doc = map(vec![
        ("server", map(vec![("bind", s("127.0.0.1:11435"))])),
        ("profiles", map(vec![("default", map(vec![("model", s("/old.gguf")), ("ctx_size", s("4096"))]))])),
    ]);
    let out = patch_profile_model_path(doc, "/c.yaml", "default", "/new.gguf").unwrap();
    let expected = map(vec![
        ("server", map(vec![("bind", s("127.0.0.1:11435"))])),
        ("profiles", map(vec![("default", map(vec![("model", s("/new.gguf")), ("ctx_size", s("4096"))]))])),
    ]);
    assert_eq!(out, expected);
}

#[test]
fn patch_model_adds_missing_key() {
    let doc = map(vec![("profiles", map(vec![("p", map(vec![]))]))]);
    let out = patch_profile_model_path(doc, "/c.yaml", "p", "/m.gguf").unwrap();
    assert_eq!(out, map(vec![("profiles", map(vec![("p", map(vec![("model", s("/m.gguf"))]))]))]));
}

#[test]
fn patch_model_errors() {
    let e = patch_profile_model_path(map(vec![]), "/c.yaml", "p", "/m").unwrap_err();
    assert_eq!(e, OaasError::Config("clef « profiles » manquante ou invalide dans /c.yaml".to_string()));
    let e = patch_profile_model_path(map(vec![("profiles", map(vec![]))]), "/c.yaml", "p", "/m").unwrap_err();
    assert_eq!(e, OaasError::Config("profil « p » absent de /c.yaml".to_string()));
    let e = patch_profile_model_path(map(vec![("profiles", map(vec![("p", s("x"))]))]), "/c.yaml", "p", "/m")
        .unwrap_err();
    assert_eq!(e, OaasError::Config("profil « p » : attendu un mapping YAML".to_string()));
}

#[test]
fn patch_enabled_creates_section() {
    let out = patch_prompt_compression_enabled(map(vec![("server", map(vec![]))]), false).unwrap();
    assert_eq!(
        out,
        map(vec![("server", map(vec![])), ("prompt_compression", map(vec![("enabled", Value::Bool(false))]))])
    );
}

#[test]
fn patch_enabled_keeps_other_keys() {
    let doc = map(vec![("prompt_compression", map(vec![("enabled", Value::Bool(true)), ("strict", Value::Bool(true))]))]);
    let out = patch_prompt_compression_enabled(doc, false).unwrap();
    assert_eq!(
        out,
        map(vec![("prompt_compression", map(vec![("enabled", Value::Bool(false)), ("strict", Value::Bool(true))]))])
    );
}

#[test]
fn patch_enabled_errors() {
    let e = patch_prompt_compression_enabled(s("x"), false).unwrap_err();
    assert_eq!(e, OaasError::Config("racine YAML : attendu un mapping".to_string()));
    let e = patch_prompt_compression_enabled(map(vec![("prompt_compression", s("x"))]), true).unwrap_err();
    assert_eq!(e, OaasError::Config("prompt_compression : attendu un mapping YAML".to_string()));
}
