use oaas::config::{ConfigFile, Profile, Profiles, PromptCompressionConfig, RuntimeSection, ServerSection};
use oaas::doctor::{
    doctor_fix_plan, doctor_report, fix_action, llmlingua_config_broken, llmlingua_script_missing, worker_script,
    DoctorChecks, FixAction, LLMLINGUA_REMEDIATION_FR,
};
use oaas::error::OaasError;

fn pc(enabled: bool, command: &[&str]) -> PromptCompressionConfig {
    let mut p = PromptCompressionConfig::default();
    p.enabled = enabled;
    p.command = command.iter().map(|s| s.to_string()).collect();
    p
}

fn cfg(p: PromptCompressionConfig) -> ConfigFile {
    let mut profiles = Profiles::new();
    profiles.insert(
        "default".to_string(),
        Profile { model: "/m.gguf".to_string(), internal_port: 8081, ctx_size: 4096, n_gpu_layers: 0, extra_args: vec![] },
    );
    ConfigFile {
        server: ServerSection { bind: "127.0.0.1:11435".to_string() },
        runtime: RuntimeSection { llama_server_binary: None },
        prompt_compression: p,
        profiles,
    }
}

fn checks(import_ok: bool) -> DoctorChecks {
    DoctorChecks {
        llama: Ok("/usr/bin/llama-server".to_string()),
        existing_paths: vec![],
        import_ok,
        model_exists: true,
        fix_written: Ok(()),
    }
}

#[test]
fn script_missing_and_broken() {
    let p = pc(true, &["python3", "scripts/worker.py"]);
    assert!(llmlingua_script_missing(&p, &vec![]));
    assert!(!llmlingua_script_missing(&p, &vec!["scripts/worker.py".to_string()]));
    assert!(llmlingua_config_broken(&p, &vec![], true));
    assert!(!llmlingua_config_broken(&p, &vec!["scripts/worker.py".to_string()], true));
    assert!(llmlingua_config_broken(&p, &vec!["scripts/worker.py".to_string()], false));
    assert!(llmlingua_config_broken(&pc(true, &[]), &vec![], true));
    assert!(!llmlingua_config_broken(&pc(false, &[]), &vec![], false));
    assert_eq!(worker_script(&p).as_deref(), Some("scripts/worker.py"));
    assert_eq!(worker_script(&pc(true, &["python3"])), None);
}

#[test]
fn fix_actions() {
    assert_eq!(fix_action(true, true), FixAction::DisableCompression);
    assert_eq!(fix_action(true, false), FixAction::NothingToFix);
    assert_eq!(fix_action(false, true), FixAction::SuggestFix);
    assert_eq!(fix_action(false, false), FixAction::Nothing);
    let c = cfg(pc(true, &["python3"]));
    assert_eq!(doctor_fix_plan(&c, &checks(false), true), FixAction::DisableCompression);
    assert_eq!(doctor_fix_plan(&c, &checks(false), false), FixAction::SuggestFix);
    assert_eq!(doctor_fix_plan(&cfg(pc(false, &[])), &checks(false), true), FixAction::NothingToFix);
}

#[test]
fn report_on_missing_config() {
    let mut ch = checks(true);
    ch.llama = Err(OaasError::Config("x".to_string()));
    let lines = doctor_report("/c.yaml", &None, "default", &ch, false);
    assert_eq!(
        lines,
        vec![
            "OAAS — diagnostic\n".to_string(),
            "✗ configuration absente : /c.yaml\n  → lance : oaas init-config   ou   make init-config".to_string(),
            "\n(llama-server absent du PATH — installe llama.cpp.)".to_string(),
        ]
    );
}

#[test]
fn report_on_unreadable_config() {
    let lines = doctor_report("/c.yaml", &Some(Err(OaasError::Config("YAML".to_string()))), "default", &checks(true), false);
    assert_eq!(lines[1], "✓ fichier de configuration : /c.yaml");
    assert_eq!(lines[2], "✗ lecture / parse YAML : configuration: YAML");
    assert_eq!(lines.len(), 3);
}

#[test]
fn report_with_broken_compression_and_fix() {
    let c = cfg(pc(true, &["python3", "w.py"]));
    let lines = doctor_report("/c.yaml", &Some(Ok(c)), "default", &checks(false), true);
    assert_eq!(lines[2], "✓ llama-server : /usr/bin/llama-server");
    assert_eq!(lines[3], "• LLMLingua : activé (compression avant llama-server)");
    assert_eq!(lines[4], "  commande : [\"python3\", \"w.py\"]");
    assert_eq!(
        lines[5],
        "✗ script worker introuvable : w.py — utilise un chemin absolu ou lance depuis la racine du dépôt"
    );
    assert_eq!(
        lines[6],
        "✗ impossible d’importer llmlingua avec \"python3\" — pip install -r scripts/requirements-llmlingua.txt (voir README)"
    );
    assert_eq!(lines[8], "✓ modèle GGUF : /m.gguf");
    assert_eq!(lines[9], "");
    assert_eq!(lines[10], "✓ Correction : prompt_compression.enabled → false dans /c.yaml");
    assert_eq!(lines.len(), 18);
}

#[test]
fn report_on_unknown_profile() {
    let c = cfg(pc(false, &[]));
    let lines = doctor_report("/c.yaml", &Some(Ok(c)), "big", &checks(true), false);
    assert_eq!(lines[3], "• LLMLingua : désactivé (prompt_compression.enabled: false)");
    assert_eq!(lines[4], "✗ profil « big » introuvable — disponibles : [\"default\"]");
    assert_eq!(lines.len(), 5);
}

#[test]
fn report_on_unknown_profile_still_fixes() {
    let c = cfg(pc(true, &["python3"]));
    let lines = doctor_report("/c.yaml", &Some(Ok(c)), "big", &checks(false), true);
    assert_eq!(lines[7], "✗ profil « big » introuvable — disponibles : [\"default\"]");
    assert_eq!(lines[8], "");
    assert_eq!(lines[9], "✓ Correction : prompt_compression.enabled → false dans /c.yaml");
    assert_eq!(lines.len(), 11);
}

#[test]
fn report_suggests_fix() {
    let c = cfg(pc(true, &[]));
    let lines = doctor_report("/c.yaml", &Some(Ok(c)), "default", &checks(true), false);
    assert_eq!(lines[4], "✗ prompt_compression.command vide");
    assert_eq!(lines[6], "\n→ Correction automatique :   cargo run -- doctor --fix   ou   make doctor-fix");
    assert!(!LLMLINGUA_REMEDIATION_FR.is_empty());
}
