use oaas::doc::Value;
use oaas::error::OaasError;
use oaas::proxy::{
    answered_status, body_after_compression, copies_response_header, download_read_timeout, env_secs,
    forwards_request_header, needs_buffered_body, parse_upstream_base, proxy_read_timeout, upstream_base_from,
    upstream_reference, upstream_url, upstream_url_from,
};

#[test]
fn buffered_only_for_compressed_chat() {
    assert!(needs_buffered_body("POST", "/v1/chat/completions", true));
    assert!(!needs_buffered_body("POST", "/v1/chat/completions", false));
    assert!(!needs_buffered_body("GET", "/v1/chat/completions", true));
    assert!(!needs_buffered_body("POST", "/v1/completions", true));
}

#[test]
fn upstream_reference_and_url() {
    assert_eq!(upstream_reference("/v1/models", None), "v1/models");
    assert_eq!(upstream_reference("//v1/x", Some("a=1")), "v1/x?a=1");
    assert_eq!(upstream_url("http://127.0.0.1:8081/", "/v1/models", None).unwrap(), "http://127.0.0.1:8081/v1/models");
    assert_eq!(
        upstream_url("http://127.0.0.1:8081", "/v1/chat/completions", Some("stream=true")).unwrap(),
        "http://127.0.0.1:8081/v1/chat/completions?stream=true"
    );
    match upstream_url("not a url", "/v1", None) {
        Err(OaasError::Backend(m)) => assert!(m.starts_with("URL upstream invalide: ")),
        other => panic!("unexpected {other:?}"),
    }
    assert_eq!(upstream_url_from(Err("bad".to_string())).unwrap_err(), OaasError::Backend("URL upstream invalide: bad".to_string()));
}

#[test]
fn upstream_base_parses() {
    assert_eq!(parse_upstream_base("http://127.0.0.1:8081").unwrap(), "http://127.0.0.1:8081/");
    assert!(matches!(parse_upstream_base("::"), Err(OaasError::Config(_))));
    assert_eq!(upstream_base_from(Err("e".to_string())).unwrap_err(), OaasError::Config("URL interne invalide: e".to_string()));
}

#[test]
fn header_filters() {
    assert!(!forwards_request_header("host"));
    assert!(!forwards_request_header("connection"));
    assert!(forwards_request_header("authorization"));
    assert!(!copies_response_header("content-length"));
    assert!(copies_response_header("content-type"));
}

#[test]
fn statuses_and_timeouts() {
    assert_eq!(answered_status(200), 200);
    assert_eq!(answered_status(99), 502);
    assert_eq!(answered_status(1000), 502);
    assert_eq!(env_secs(&Some("30".to_string()), 5), 30);
    assert_eq!(env_secs(&Some("x".to_string()), 5), 5);
    assert_eq!(env_secs(&None, 5), 5);
    assert_eq!(download_read_timeout(&None), 180);
    assert_eq!(proxy_read_timeout(&None), 900);
    assert_eq!(proxy_read_timeout(&Some("60".to_string())), 60);
}

#[test]
fn compression_failure_policy() {
    assert_eq!(body_after_compression(false, Ok(Value::Null)).unwrap(), Some(Value::Null));
    let e = OaasError::Backend("x".to_string());
    assert_eq!(body_after_compression(false, Err(e.clone())).unwrap(), None);
    assert_eq!(body_after_compression(true, Err(e.clone())).unwrap_err(), e);
}
