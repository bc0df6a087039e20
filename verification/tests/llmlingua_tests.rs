use oaas::config::PromptCompressionConfig;
use oaas::doc::{Number, Value};
use oaas::error::OaasError;
use oaas::llmlingua::{
    checked_answer_length, compress_outcome, compress_request, encode_frame, exchange_deadline_secs,
    exchange_timeout_error, frame_length, init_outcome, init_request, worker_command, worker_spawn_error,
    WorkerEnvelope,
};

fn s(x: &str) -> Value {
    Value::Str(x.to_string())
}

#[test]
fn frame_roundtrip() {
    let payload = b"{\"v\":1}".to_vec();
    let f = encode_frame(&payload).unwrap();
    assert_eq!(&f[..4], &[0, 0, 0, 7]);
    assert_eq!(frame_length(f[0], f[1], f[2], f[3]) as usize, payload.len());
    assert_eq!(&f[4..], &payload[..]);
    assert_eq!(frame_length(1, 2, 3, 4), 0x01020304);
    assert_eq!(encode_frame(&vec![]).unwrap(), vec![0, 0, 0, 0]);
}

#[test]
fn answer_length_limit() {
    assert_eq!(checked_answer_length(64 * 1024 * 1024).unwrap(), 64 * 1024 * 1024);
    assert_eq!(
        checked_answer_length(64 * 1024 * 1024 + 1).unwrap_err(),
        OaasError::Backend("IPC LLMLingua: réponse LLMLingua trop grande".to_string())
    );
}

#[test]
fn requests() {
    let pc = PromptCompressionConfig::default();
    let v = init_request(&pc);
    assert_eq!(
        v,
        Value::Mapping(vec![
            (s("v"), Value::Num(Number::PosInt(1))),
            (s("op"), s("init")),
            (s("model_name"), s(&pc.model_name)),
            (s("use_llmlingua2"), Value::Bool(true)),
            (s("device_map"), s("cpu")),
        ])
    );
    let c = compress_request(Number::Float("0.5".to_string()), 300, s("body"));
    assert_eq!(
        c,
        Value::Mapping(vec![
            (s("v"), Value::Num(Number::PosInt(1))),
            (s("op"), s("compress")),
            (s("rate"), Value::Num(Number::Float("0.5".to_string()))),
            (s("target_token"), Value::Num(Number::PosInt(300))),
            (s("body"), s("body")),
        ])
    );
}

#[test]
fn envelopes() {
    assert!(init_outcome(&WorkerEnvelope { ok: true, error: None, body: None }).is_ok());
    assert_eq!(
        init_outcome(&WorkerEnvelope { ok: false, error: None, body: None }).unwrap_err(),
        OaasError::Backend("init LLMLingua refusé".to_string())
    );
    assert_eq!(
        compress_outcome(WorkerEnvelope { ok: false, error: Some("boom".to_string()), body: None }).unwrap_err(),
        OaasError::Backend("boom".to_string())
    );
    assert_eq!(
        compress_outcome(WorkerEnvelope { ok: true, error: None, body: None }).unwrap_err(),
        OaasError::Backend("réponse compress sans « body »".to_string())
    );
    assert_eq!(compress_outcome(WorkerEnvelope { ok: true, error: None, body: Some(s("b")) }).unwrap(), s("b"));
}

#[test]
fn worker_process() {
    assert_eq!(exchange_deadline_secs(0), 1);
    assert_eq!(exchange_deadline_secs(30), 30);
    assert_eq!(
        exchange_timeout_error(30),
        OaasError::Backend(
            "timeout LLMLingua après 30s — augmente prompt_compression.timeout_secs ou vérifie device_map / GPU".to_string()
        )
    );
    let mut pc = PromptCompressionConfig::default();
    assert_eq!(
        worker_command(&pc).unwrap_err(),
        OaasError::Config("prompt_compression.command ne peut pas être vide lorsque la compression est activée".to_string())
    );
    pc.command = vec!["python3".to_string(), "w.py".to_string(), "--x".to_string()];
    assert_eq!(worker_command(&pc).unwrap(), ("python3".to_string(), vec!["w.py".to_string(), "--x".to_string()]));
    assert_eq!(
        worker_spawn_error(&pc.command, "not found"),
        OaasError::Backend("impossible de lancer le worker LLMLingua [\"python3\", \"w.py\", \"--x\"]: not found".to_string())
    );
}
