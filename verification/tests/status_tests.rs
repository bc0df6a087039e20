use oaas::cmd_status::{flag, status_report};
use oaas::config::{ConfigFile, Profile, Profiles, PromptCompressionConfig, RuntimeSection, ServerSection};
use oaas::error::OaasError;
use oaas::project_status::{
    classify_exe, workstation_plan, workstation_status, HttpProbe, LlmlinguaCheck, WorkstationFacts,
};

fn profile(model: &str) -> Profile {
    Profile { model: model.to_string(), internal_port: 8081, ctx_size: 4096, n_gpu_layers: 99, extra_args: vec![] }
}

fn config(bind: &str, pc: PromptCompressionConfig) -> ConfigFile {
    let mut profiles = Profiles::new();
    profiles.insert("default".to_string(), profile("/models/a.gguf"));
    ConfigFile {
        server: ServerSection { bind: bind.to_string() },
        runtime: RuntimeSection { llama_server_binary: None },
        prompt_compression: pc,
        profiles,
    }
}

fn facts() -> WorkstationFacts {
    WorkstationFacts {
        config_path: "/home/u/.config/oaas/config.yaml".to_string(),
        config_present: true,
        llmlingua_import_ok: false,
        llama: Ok("/usr/bin/llama-server".to_string()),
        model_file_ok: true,
        tcp_listen_open: true,
        http: Some(HttpProbe::Status("404 Not Found".to_string())),
        continue_yaml: "/home/u/.continue/config.yaml".to_string(),
        continue_json: "/home/u/.continue/config.json".to_string(),
        continue_yaml_exists: false,
        continue_json_exists: false,
        continue_yaml_doc: None,
        continue_json_doc: None,
        current_exe: "/home/u/proj/target/release/oaas".to_string(),
        cargo_manifest_dir: "/home/u/proj".to_string(),
        cargo_fmt_ok: false,
        cargo_clippy_ok: false,
        cargo_build_ok: false,
    }
}

#[test]
fn classify_exe_kinds() {
    assert_eq!(classify_exe("/home/u/proj/target/debug/oaas"), "debug");
    assert_eq!(classify_exe("/home/u/proj/target/release/oaas"), "release");
    assert_eq!(classify_exe("/usr/local/bin/oaas"), "installed_or_other");
}

#[test]
fn flag_marks() {
    assert_eq!(flag(true), "✓");
    assert_eq!(flag(false), "✗");
}

#[test]
fn plan_without_config_uses_default_api() {
    let p = workstation_plan(None, "default");
    assert!(!p.config_loaded);
    assert_eq!(p.llmlingua, LlmlinguaCheck::NoConfig);
    assert_eq!(p.api_for_continue, "http://127.0.0.1:11435/v1");
    assert_eq!(p.probe_host, None);
}

#[test]
fn plan_with_wildcard_bind_and_compression() {
    let mut pc = PromptCompressionConfig::default();
    pc.enabled = true;
    pc.command = vec!["python3".to_string(), "worker.py".to_string()];
    let cfg = config("0.0.0.0:11435", pc);
    let p = workstation_plan(Some(&cfg), "default");
    assert!(p.config_loaded && p.profile_found && p.llmlingua_enabled);
    assert_eq!(p.model_path.as_deref(), Some("/models/a.gguf"));
    assert_eq!(p.probe_host.as_deref(), Some("127.0.0.1:11435"));
    assert_eq!(p.api_for_continue, "http://127.0.0.1:11435/v1");
    assert_eq!(
        p.llmlingua,
        LlmlinguaCheck::Probe {
            command: "python3".to_string(),
            failure_note: "import llmlingua via \"python3\"".to_string()
        }
    );
}

#[test]
fn plan_for_missing_profile() {
    let cfg = config("127.0.0.1:9000", PromptCompressionConfig::default());
    let p = workstation_plan(Some(&cfg), "other");
    assert!(!p.profile_found);
    assert_eq!(p.model_path, None);
    assert_eq!(p.llmlingua, LlmlinguaCheck::Disabled);
}

#[test]
fn status_from_plan_and_facts() {
    let mut pc = PromptCompressionConfig::default();
    pc.enabled = true;
    pc.command = vec!["python3".to_string()];
    let cfg = config("127.0.0.1:11435", pc);
    let p = workstation_plan(Some(&cfg), "default");
    let s = workstation_status(p, facts(), "default", false);
    assert!(s.config_parse_ok && s.profile_found && s.model_file_ok);
    assert!(s.llama_binary_ok);
    assert_eq!(s.llama_binary_note.as_deref(), Some("/usr/bin/llama-server"));
    assert!(!s.llmlingua_ok);
    assert_eq!(s.llmlingua_note.as_deref(), Some("import llmlingua via \"python3\""));
    assert!(s.tcp_listen_open && !s.http_oaas_ui_ok);
    assert_eq!(s.http_note.as_deref(), Some("GET /oaas/ → 404 Not Found"));
    assert_eq!(s.continue_preferred, "none_yet");
    assert!(!s.continue_has_oaas);
    assert_eq!(s.build_kind, "release");
    assert_eq!((s.cargo_fmt_ok, s.cargo_clippy_ok, s.cargo_build_ok), (None, None, None));
}

#[test]
fn status_without_config() {
    let p = workstation_plan(None, "default");
    let mut f = facts();
    f.config_present = false;
    f.llama = Err(OaasError::Config("absent".to_string()));
    f.continue_json_exists = true;
    let s = workstation_status(p, f, "default", false);
    assert!(!s.config_parse_ok && !s.llmlingua_ok && !s.model_file_ok && !s.tcp_listen_open);
    assert_eq!(s.llmlingua_note, None);
    assert_eq!(s.http_note, None);
    assert!(!s.llama_binary_ok);
    assert_eq!(s.llama_binary_note.as_deref(), Some("configuration: absent"));
    assert_eq!(s.continue_preferred, "json");
}

#[test]
fn report_without_config() {
    let p = workstation_plan(None, "default");
    let mut f = facts();
    f.config_present = false;
    f.llama = Err(OaasError::Config("absent".to_string()));
    let s = workstation_status(p, f, "default", false);
    let lines = status_report(&s);
    assert_eq!(lines[0], "OAAS — statut poste de travail\n");
    assert_eq!(lines[1], "  ▶ Pas d’URL tant que la config n’existe pas →  make init-config  puis  make serve\n");
    assert_eq!(lines[2], "  Config YAML     : /home/u/.config/oaas/config.yaml ✗");
    assert!(lines.contains(&"  Serveur OAAS    : — (config absente ou invalide)".to_string()));
    assert!(lines.contains(&"  Fichier .gguf   : — (profil introuvable)".to_string()));
    assert!(lines.contains(&"  llama-server    : ✗ configuration: absent".to_string()));
    assert_eq!(lines[lines.len() - 1], "\nAstuce : make dev  (logs)  |  make doctor  (diagnostic détaillé)");
    assert_eq!(
        lines[lines.len() - 3],
        "\n  ▶ Prochaine étape : crée la config OAAS avec   make init-config   ou   oaas init-config"
    );
}

#[test]
fn report_with_server_urls_and_ci() {
    let cfg = config("0.0.0.0:11435", PromptCompressionConfig::default());
    let p = workstation_plan(Some(&cfg), "default");
    let mut f = facts();
    f.http = Some(HttpProbe::Success);
    f.cargo_fmt_ok = true;
    f.cargo_clippy_ok = false;
    f.cargo_build_ok = true;
    let s = workstation_status(p, f, "default", true);
    assert_eq!((s.cargo_fmt_ok, s.cargo_clippy_ok, s.cargo_build_ok), (Some(true), Some(false), Some(true)));
    let lines = status_report(&s);
    assert_eq!(lines[1], "  ▶ Où est l’interface ?");
    assert_eq!(lines[2], "     Tableau de bord (UI web) : http://127.0.0.1:11435/oaas/");
    assert_eq!(lines[3], "     API OpenAI-like          : http://127.0.0.1:11435/v1   (Continue, clients /v1)");
    assert!(lines.contains(&"  GET /oaas/      : ✓ (UI répond)".to_string()));
    assert!(lines.contains(&"  LLMLingua       : — (désactivé)".to_string()));
    assert!(lines.contains(&"  cargo clippy    : ✗".to_string()));
    assert!(lines.contains(&"  Binaire courant : [release] /home/u/proj/target/release/oaas".to_string()));
    assert_eq!(lines[lines.len() - 2], "  cargo build     : ✓");
}

#[test]
fn empty_command_and_failed_probe() {
    let mut pc = PromptCompressionConfig::default();
    pc.enabled = true;
    let cfg = config("127.0.0.1:11435", pc);
    let p = workstation_plan(Some(&cfg), "default");
    assert_eq!(p.llmlingua, LlmlinguaCheck::EmptyCommand);
    let mut f = facts();
    f.http = Some(HttpProbe::Failed("connection reset".to_string()));
    let s = workstation_status(p, f, "default", false);
    assert!(!s.llmlingua_ok);
    assert_eq!(s.llmlingua_note.as_deref(), Some("command vide"));
    assert!(!s.http_oaas_ui_ok);
    assert_eq!(s.http_note.as_deref(), Some("connection reset"));
}

#[test]
fn closed_port_hides_http_outcome() {
    let cfg = config("127.0.0.1:11435", PromptCompressionConfig::default());
    let p = workstation_plan(Some(&cfg), "default");
    let mut f = facts();
    f.tcp_listen_open = false;
    f.http = Some(HttpProbe::Success);
    let s = workstation_status(p, f, "default", false);
    assert!(!s.tcp_listen_open && !s.http_oaas_ui_ok);
    assert_eq!(s.http_note, None);
    assert!(s.llmlingua_ok);
}
