//! The answer of `GET /`: what the service is and where its endpoints are.
use vstd::prelude::*;

use crate::text::owned;

verus! {

/// The OpenAI-compatible endpoints, described.
#[derive(Debug, Clone, PartialEq, Eq)]
pub struct RootEndpoints {
    pub openai_compatible: String,
    pub models: String,
    pub chat: String,
}

/// The answer of `GET /`.
#[derive(Debug, Clone, PartialEq, Eq)]
pub struct RootInfo {
    pub service: String,
    pub version: String,
    pub endpoints: RootEndpoints,
    pub gguf: String,
    pub ollama: String,
    pub llmlingua: String,
    pub catalog_entries: usize,
    pub models_ui: String,
    pub models_catalog_json: String,
    pub oaas_status_json: String,
    pub oaas_ide_continue_status: String,
    pub oaas_ide_apply_continue: String,
    pub oaas_ide_open_folder: String,
}

/// The answer of `GET /` for program version `version` and a catalogue of
/// `catalog_entries` models.
pub fn root_info(version: &str, catalog_entries: usize) -> (r: RootInfo)
    ensures
        r.service@ == "OAAS"@,
        r.version@ == version@,
        r.endpoints.openai_compatible@ == "Toutes les routes /v1/* sont proxifiées vers llama-server."@,
        r.endpoints.models@ == "GET /v1/models"@,
        r.endpoints.chat@ == "POST /v1/chat/completions (streaming supporté)"@,
        r.gguf@
            == "Les modèles locaux sont des fichiers .gguf (poids quantifiés pour llama.cpp). Place le chemin dans profiles.<nom>.model du fichier de configuration."@,
        r.ollama@
            == "OAAS ne parle pas à Ollama : tout passe par llama-server + ce proxy. Tu peux arrêter Ollama si Continue pointe ici."@,
        r.llmlingua@
            == "Si prompt_compression.enabled est true dans le YAML, les POST /v1/chat/completions sont compressés via le worker Python LLMLingua avant llama-server."@,
        r.catalog_entries == catalog_entries,
        r.models_ui@ == "/oaas/"@,
        r.models_catalog_json@ == "/oaas/catalog.json"@,
        r.oaas_status_json@ == "/oaas/status.json"@,
        r.oaas_ide_continue_status@ == "/oaas/ide/continue-status"@,
        r.oaas_ide_apply_continue@ == "/oaas/ide/apply-continue"@,
        r.oaas_ide_open_folder@ == "/oaas/ide/open-folder"@,
{
    RootInfo {
        service: owned("OAAS"),
        version: owned(version),
        endpoints: RootEndpoints {
            openai_compatible: owned("Toutes les routes /v1/* sont proxifiées vers llama-server."),
            models: owned("GET /v1/models"),
            chat: owned("POST /v1/chat/completions (streaming supporté)"),
        },
        gguf: owned(
            "Les modèles locaux sont des fichiers .gguf (poids quantifiés pour llama.cpp). Place le chemin dans profiles.<nom>.model du fichier de configuration.",
        ),
        ollama: owned(
            "OAAS ne parle pas à Ollama : tout passe par llama-server + ce proxy. Tu peux arrêter Ollama si Continue pointe ici.",
        ),
        llmlingua: owned(
            "Si prompt_compression.enabled est true dans le YAML, les POST /v1/chat/completions sont compressés via le worker Python LLMLingua avant llama-server.",
        ),
        catalog_entries,
        models_ui: owned("/oaas/"),
        models_catalog_json: owned("/oaas/catalog.json"),
        oaas_status_json: owned("/oaas/status.json"),
        oaas_ide_continue_status: owned("/oaas/ide/continue-status"),
        oaas_ide_apply_continue: owned("/oaas/ide/apply-continue"),
        oaas_ide_open_folder: owned("/oaas/ide/open-folder"),
    }
}

} // verus!
