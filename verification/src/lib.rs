//! OAAS: the verified logic of a local `llama.cpp` orchestrator.
pub mod backend;
pub mod cmd_docs;
pub mod cmd_models;
pub mod cmd_status;
pub mod config;
pub mod continue_ide;
pub mod doc;
pub mod docs_catalog;
pub mod doctor;
pub mod download;
pub mod error;
pub mod http_ide;
pub mod http_root;
pub mod init_config;
pub mod llmlingua;
pub mod models_catalog;
pub mod paths;
pub mod project_status;
pub mod proxy;
pub mod runtime;
pub mod serve;
pub mod serve_dashboard;
pub mod system_snapshot;
pub mod text;
