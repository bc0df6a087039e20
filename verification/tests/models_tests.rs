use oaas::cmd_models::{
    join_strings, lookup_model, model_detail_lines, models_list_lines, profile_patched_line, pull_dest,
    recommendation_lines,
};
use oaas::error::OaasError;
use oaas::models_catalog::{
    default_balanced_usage, docs_cache_dir, find_model, models_cache_dir, oaas_data_dir, recommend_picks,
    CatalogDefaults, CatalogModel, ModelsCatalogRoot,
};
use oaas::paths::EnvVars;

fn model(id: &str, usage: &[&str]) -> CatalogModel {
    CatalogModel {
        id: id.to_string(),
        label: format!("Label {id}"),
        family: "qwen".to_string(),
        kind: "instruct".to_string(),
        hf_repo: "org/repo".to_string(),
        filename: format!("{id}.gguf"),
        approx_size_mb: 2500,
        usage: usage.iter().map(|s| s.to_string()).collect(),
        note_fr: "Note".to_string(),
    }
}

fn catalog() -> ModelsCatalogRoot {
    ModelsCatalogRoot {
        version: 3,
        defaults: CatalogDefaults { balanced_usage: "dev".to_string() },
        models: vec![model("qwen3.5-4b-q4km", &["General", "Dev"]), model("qwen2.5-coder-7b-q4km", &["dev"]), model("other", &["docs"])],
    }
}

fn env() -> EnvVars {
    EnvVars { home: Some("/home/u".to_string()), xdg_config_home: None, xdg_data_home: None }
}

#[test]
fn data_directories() {
    assert_eq!(oaas_data_dir(&env()), "/home/u/.local/share/oaas");
    assert_eq!(models_cache_dir(&env()), "/home/u/.local/share/oaas/models");
    assert_eq!(docs_cache_dir(&env()), "/home/u/.local/share/oaas/docs");
    let x = EnvVars { home: None, xdg_config_home: None, xdg_data_home: Some("/x".to_string()) };
    assert_eq!(oaas_data_dir(&x), "/x/oaas");
    assert_eq!(default_balanced_usage(), "dev");
}

#[test]
fn download_url_of_model() {
    assert_eq!(model("a", &[]).huggingface_download_url(), "https://huggingface.co/org/repo/resolve/main/a.gguf");
}

#[test]
fn list_filtered_by_usage() {
    let lines = models_list_lines(&catalog(), &Some("DEV".to_string()));
    assert_eq!(lines[0], "Catalogue OAAS (v3) — modèles :\n");
    assert_eq!(lines[1], "  qwen3.5-4b-q4km        [instruct] Label qwen3.5-4b-q4km (~2500 Mo)");
    assert_eq!(lines[2], "  qwen2.5-coder-7b-q4km  [instruct] Label qwen2.5-coder-7b-q4km (~2500 Mo)");
    assert_eq!(lines.len(), 4);
    assert_eq!(models_list_lines(&catalog(), &None).len(), 5);
}

#[test]
fn detail_of_model() {
    let lines = model_detail_lines(&model("a", &["dev", "docs"]));
    assert_eq!(
        lines,
        vec![
            "Label a\n",
            "id          : a",
            "famille     : qwen (instruct)",
            "usage       : dev, docs",
            "taille ~    : 2500 Mo",
            "URL HF      : https://huggingface.co/org/repo/resolve/main/a.gguf",
            "\nNote",
        ]
    );
    assert_eq!(join_strings(&vec![], ", "), "");
}

#[test]
fn recommendations_list_catalogue_picks() {
    let picks = recommend_picks(&catalog());
    assert_eq!(picks.len(), 2);
    assert_eq!(picks[0].key, "polyvalent");
    assert_eq!(picks[1].model_id, "qwen2.5-coder-7b-q4km");
    let lines = recommendation_lines(&catalog());
    assert_eq!(lines[1], "Picks du catalogue :\n");
    assert_eq!(lines[2], "  • Polyvalent / laptop : qwen3.5-4b-q4km — Label qwen3.5-4b-q4km");
    assert_eq!(lines[3], "  • Code / outillage : qwen2.5-coder-7b-q4km — Label qwen2.5-coder-7b-q4km");
    assert_eq!(lines[4], "\nVoir : oaas models list | oaas models list --usage dev");
    assert!(lines[0].starts_with("Recommandations OAAS (Instruct vs Coder)\n\n• Instruct"));
}

#[test]
fn pull_destination_and_lookup() {
    let c = catalog();
    let m = lookup_model(&c, "other").unwrap();
    assert_eq!(pull_dest(&None, m, &env()), "/home/u/.local/share/oaas/models/other.gguf");
    assert_eq!(pull_dest(&Some("/tmp/m".to_string()), m, &env()), "/tmp/m/other.gguf");
    assert_eq!(lookup_model(&c, "nope").unwrap_err(), OaasError::Config("modèle « nope » inconnu du catalogue".to_string()));
    assert!(find_model(&c, "qwen3.5-4b-q4km").is_some());
    assert_eq!(profile_patched_line("default", "/c.yaml"), "Profil « default » mis à jour dans /c.yaml (champ model).");
}
