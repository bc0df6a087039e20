use oaas::backend::{
    check_model_file, llama_server_args, readiness_timeout_error_from, readiness_urls, ready_next, upstream_base,
    ReadyAction, ReadyStage,
};
use oaas::config::Profile;
use oaas::error::OaasError;
use oaas::runtime::{llama_binary_from, resolve_llama_binary};

#[test]
fn llama_arguments() {
    let p = Profile {
        model: "/m.gguf".to_string(),
        internal_port: 8081,
        ctx_size: 8192,
        n_gpu_layers: -1,
        extra_args: vec!["--flash-attn".to_string()],
    };
    assert_eq!(
        llama_server_args(&p),
        vec!["-m", "/m.gguf", "--host", "127.0.0.1", "--port", "8081", "-c", "8192", "-ngl", "-1", "--flash-attn"]
    );
}

#[test]
fn model_check_and_base() {
    assert!(check_model_file("/m", true).is_ok());
    assert_eq!(check_model_file("/m", false).unwrap_err(), OaasError::Config("fichier modèle introuvable: /m".to_string()));
    assert_eq!(upstream_base(8081), "http://127.0.0.1:8081");
}

#[test]
fn readiness_wait() {
    assert_eq!(
        readiness_urls("http://127.0.0.1:8081/"),
        ("http://127.0.0.1:8081/v1/models".to_string(), "http://127.0.0.1:8081/health".to_string())
    );
    assert_eq!(
        ready_next(ReadyStage::RoundStart, false, false, "http://h", 120),
        ReadyAction::Probe("http://h/v1/models".to_string())
    );
    assert_eq!(
        ready_next(ReadyStage::RoundStart, true, false, "http://h", 120),
        ReadyAction::Fail(OaasError::Backend(
            "timeout après 120s — vérifie le binaire llama-server et le modèle".to_string()
        ))
    );
    assert_eq!(
        ready_next(ReadyStage::RoundStart, true, false, "http://h", 0),
        ReadyAction::Fail(OaasError::Backend(
            "timeout après 0ns — vérifie le binaire llama-server et le modèle".to_string()
        ))
    );
    assert_eq!(ready_next(ReadyStage::ModelsProbed, false, true, "http://h", 120), ReadyAction::Done);
    assert_eq!(
        ready_next(ReadyStage::ModelsProbed, false, false, "http://h", 120),
        ReadyAction::Probe("http://h/health".to_string())
    );
    assert_eq!(ready_next(ReadyStage::HealthProbed, false, false, "http://h", 120), ReadyAction::Wait);
    assert_eq!(
        readiness_timeout_error_from("2s"),
        OaasError::Backend("timeout après 2s — vérifie le binaire llama-server et le modèle".to_string())
    );
}

#[test]
fn llama_binary_choice() {
    assert_eq!(llama_binary_from(&Some("/b".to_string()), true, &None).unwrap(), "/b");
    assert_eq!(
        llama_binary_from(&Some("/b".to_string()), false, &None).unwrap_err(),
        OaasError::Config("binaire llama-server introuvable (config): /b".to_string())
    );
    assert_eq!(llama_binary_from(&None, false, &Some("/usr/bin/llama-server".to_string())).unwrap(), "/usr/bin/llama-server");
    assert_eq!(
        llama_binary_from(&None, false, &None).unwrap_err(),
        OaasError::Config(
            "binaire « llama-server » introuvable dans le PATH — installe llama.cpp ou renseigne runtime.llama_server_binary dans le YAML"
                .to_string()
        )
    );
    assert_eq!(resolve_llama_binary(&Some("/opt/x".to_string()), true).unwrap(), "/opt/x");
}
