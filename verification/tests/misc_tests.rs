use oaas::config::{ConfigFile, Profile, Profiles, PromptCompressionConfig, RuntimeSection, ServerSection};
use oaas::doc::Value;
use oaas::error::OaasError;
use oaas::http_ide::{
    apply_continue_response, chosen_model, continue_write_target, expand_project_path, open_folder_response,
    require_directory, require_under_home,
};
use oaas::http_root::root_info;
use oaas::init_config::{init_config_check, init_config_lines};
use oaas::models_catalog::{pick_catalog_source, CatalogSource, ModelsCatalogRoot, CatalogDefaults};
use oaas::paths::EnvVars;
use oaas::serve::{bind_error, missing_config_error, serve_compression, serve_profile};
use oaas::serve_dashboard::{build_oaas_status, client_facing_host};

fn s(x: &str) -> Value {
    Value::Str(x.to_string())
}

fn cfg() -> ConfigFile {
    let mut profiles = Profiles::new();
    profiles.insert(
        "default".to_string(),
        Profile { model: "/m.gguf".to_string(), internal_port: 8081, ctx_size: 4096, n_gpu_layers: 0, extra_args: vec![] },
    );
    profiles.insert(
        "big".to_string(),
        Profile { model: "/b.gguf".to_string(), internal_port: 8082, ctx_size: 4096, n_gpu_layers: 0, extra_args: vec![] },
    );
    ConfigFile {
        server: ServerSection { bind: "[::]:11435".to_string() },
        runtime: RuntimeSection { llama_server_binary: None },
        prompt_compression: PromptCompressionConfig::default(),
        profiles,
    }
}

#[test]
fn errors_map_to_http() {
    assert_eq!(OaasError::Config("x".to_string()).http_status(), 400);
    assert_eq!(OaasError::Backend("x".to_string()).http_status(), 400);
    assert_eq!(OaasError::Io("x".to_string()).http_status(), 500);
    assert_eq!(OaasError::Http("x".to_string()).http_status(), 502);
    assert_eq!(OaasError::Io("disk".to_string()).to_text(), "IO: disk");
    assert_eq!(OaasError::Http("net".to_string()).to_text(), "HTTP client: net");
    assert_eq!(
        OaasError::Backend("b".to_string()).response_body(),
        Value::Mapping(vec![(
            s("error"),
            Value::Mapping(vec![(s("message"), s("backend: b")), (s("type"), s("oaas_error"))])
        )])
    );
}

#[test]
fn dashboard_status() {
    let c = cfg();
    let catalog = ModelsCatalogRoot { version: 1, defaults: CatalogDefaults { balanced_usage: "dev".to_string() }, models: vec![] };
    let st = build_oaas_status(&c, "/c.yaml", "big", &catalog, "0.1.0");
    assert_eq!(st.client_host, "127.0.0.1:11435");
    assert_eq!(st.api_base_url, "http://127.0.0.1:11435/v1");
    assert_eq!(st.oaas_ui_url, "http://127.0.0.1:11435/oaas/");
    assert_eq!(st.profiles.len(), 2);
    assert_eq!(st.profiles[0].name, "big");
    assert!(st.profiles[0].active && !st.profiles[1].active);
    assert!(st.recommend_picks.is_empty());
    assert_eq!(client_facing_host("192.168.1.2:80"), "192.168.1.2:80");
    assert_eq!(client_facing_host("0.0.0.0:1"), "127.0.0.1:1");
}

#[test]
fn serve_checks() {
    let c = cfg();
    assert_eq!(serve_profile(&c, "default").unwrap().internal_port, 8081);
    assert_eq!(
        serve_profile(&c, "x").unwrap_err(),
        OaasError::Config("profil « x » introuvable — profils disponibles: [\"big\", \"default\"]".to_string())
    );
    let mut pc = PromptCompressionConfig::default();
    assert_eq!(serve_compression(&pc).unwrap(), false);
    pc.enabled = true;
    assert_eq!(
        serve_compression(&pc).unwrap_err(),
        OaasError::Config("prompt_compression.enabled est true mais command est vide — remplis la liste (python + worker)".to_string())
    );
    pc.command = vec!["python3".to_string()];
    assert_eq!(serve_compression(&pc).unwrap(), true);
    assert_eq!(
        missing_config_error("/c.yaml"),
        OaasError::Config("fichier de configuration absent: /c.yaml — copie config.example.yaml ou oaas init-config.".to_string())
    );
    assert_eq!(bind_error("0.0.0.0:1", "in use"), OaasError::Config("impossible de binder 0.0.0.0:1: in use".to_string()));
}

#[test]
fn ide_requests() {
    assert_eq!(chosen_model(&Some("m".to_string())).as_deref(), Some("m"));
    assert_eq!(chosen_model(&Some(String::new())), None);
    assert_eq!(chosen_model(&None), None);
    let env = EnvVars { home: Some("/home/u".to_string()), xdg_config_home: None, xdg_data_home: None };
    assert_eq!(continue_write_target(None, &env, false, true).unwrap(), ("/home/u/.continue/config.json".to_string(), true));
    assert_eq!(continue_write_target(Some("/w"), &env, true, true).unwrap(), ("/w/.continue/config.yaml".to_string(), false));
    assert_eq!(continue_write_target(Some("/w"), &env, false, false).unwrap(), ("/w/.continue/config.json".to_string(), true));
    assert_eq!(expand_project_path(&Some("/home/u".to_string()), "~/proj").unwrap(), "/home/u/proj");
    assert_eq!(expand_project_path(&Some("/home/u".to_string()), "/srv/p").unwrap(), "/srv/p");
    assert_eq!(
        expand_project_path(&None, "~/p").unwrap_err(),
        OaasError::Config("HOME non défini — ouverture de dossier refusée.".to_string())
    );
    assert_eq!(require_directory("/f", false).unwrap_err(), OaasError::Config("« /f » n’est pas un répertoire.".to_string()));
    assert!(require_directory("/d", true).is_ok());
    assert_eq!(require_under_home("/home/u/p", "/home/u").unwrap(), "/home/u/p");
    assert_eq!(
        require_under_home("/home/user2", "/home/u").unwrap_err(),
        OaasError::Config("Pour des raisons de sécurité, seuls les dossiers sous $HOME sont acceptés.".to_string())
    );
}

#[test]
fn ide_answers() {
    assert_eq!(
        apply_continue_response("msg", "m", "/c.yaml"),
        Value::Mapping(vec![
            (s("ok"), Value::Bool(true)),
            (s("message"), s("msg")),
            (s("model"), s("m")),
            (s("continue_config"), s("/c.yaml")),
        ])
    );
    assert_eq!(
        open_folder_response("code « /p »", "/p"),
        Value::Mapping(vec![(s("ok"), Value::Bool(true)), (s("message"), s("code « /p »")), (s("folder"), s("/p"))])
    );
}

#[test]
fn root_answer() {
    let r = root_info("1.2.3", 7);
    assert_eq!(r.service, "OAAS");
    assert_eq!(r.version, "1.2.3");
    assert_eq!(r.catalog_entries, 7);
    assert_eq!(r.endpoints.models, "GET /v1/models");
    assert_eq!(r.oaas_ide_open_folder, "/oaas/ide/open-folder");
}

#[test]
fn init_config_rules() {
    assert_eq!(init_config_check("/c.yaml", true, false).unwrap_err(), "existe déjà : /c.yaml — utilise --force pour écraser");
    assert!(init_config_check("/c.yaml", true, true).is_ok());
    assert!(init_config_check("/c.yaml", false, false).is_ok());
    let lines = init_config_lines("/c.yaml");
    assert_eq!(lines[0], "Configuration créée : /c.yaml");
    assert_eq!(lines.len(), 3);
}

#[test]
fn catalogue_sources() {
    assert_eq!(pick_catalog_source(Some("/e".to_string()), Some("/i".to_string()), true, true), CatalogSource::EnvOverride("/e".to_string()));
    assert_eq!(pick_catalog_source(None, Some("/i".to_string()), true, true), CatalogSource::Installed("/i".to_string()));
    assert_eq!(pick_catalog_source(None, Some("/i".to_string()), false, true), CatalogSource::WorkingDir);
    assert_eq!(pick_catalog_source(None, None, false, false), CatalogSource::Builtin);
}
