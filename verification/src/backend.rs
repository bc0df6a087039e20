//! Running `llama-server` for a profile: its arguments, the check on the
//! model file, and the wait until its API answers.
use vstd::prelude::*;

use crate::config::Profile;
use crate::error::{ErrorModel, OaasError};
use crate::text::{decimal, fmt_i64, fmt_u64, owned, push_line, signed_decimal, trim_end_char, trim_end_matches, views};

verus! {

/// The arguments `llama-server` is started with for profile `p`: the model,
/// `127.0.0.1` and the profile's port, its context size and GPU layers,
/// then the profile's extra arguments.
pub open spec fn llama_args_of(p: Profile) -> Seq<Seq<char>> {
    seq![
        "-m"@,
        p.model@,
        "--host"@,
        "127.0.0.1"@,
        "--port"@,
        decimal(p.internal_port as nat),
        "-c"@,
        decimal(p.ctx_size as nat),
        "-ngl"@,
        signed_decimal(p.n_gpu_layers as int),
    ] + views(p.extra_args@)
}

/// `llama-server` gets the ten fixed arguments (model, host, port, context
/// size, GPU layers, each after its flag), then every extra argument of the
/// profile, in order and none left out.
pub proof fn law_llama_args_keep_extra_args(p: Profile)
    ensures
        llama_args_of(p).len() == 10 + p.extra_args@.len(),
        llama_args_of(p)[0] == "-m"@,
        llama_args_of(p)[1] == p.model@,
        llama_args_of(p)[2] == "--host"@,
        llama_args_of(p)[3] == "127.0.0.1"@,
        llama_args_of(p)[4] == "--port"@,
        llama_args_of(p)[6] == "-c"@,
        llama_args_of(p)[5] == decimal(p.internal_port as nat),
        llama_args_of(p)[7] == decimal(p.ctx_size as nat),
        llama_args_of(p)[8] == "-ngl"@,
        llama_args_of(p)[9] == signed_decimal(p.n_gpu_layers as int),
        forall|i: int| 0 <= i < p.extra_args@.len() ==> #[trigger] llama_args_of(p)[10 + i] == p.extra_args@[i]@,
{
}

/// The arguments `llama-server` is started with for profile `p`.
pub fn llama_server_args(p: &Profile) -> (v: Vec<String>)
    ensures
        views(v@) == llama_args_of(*p),
{
    let mut v: Vec<String> = Vec::new();
    push_line(&mut v, owned("-m"));
    push_line(&mut v, owned(p.model.as_str()));
    push_line(&mut v, owned("--host"));
    push_line(&mut v, owned("127.0.0.1"));
    push_line(&mut v, owned("--port"));
    push_line(&mut v, fmt_u64(p.internal_port as u64));
    push_line(&mut v, owned("-c"));
    push_line(&mut v, fmt_u64(p.ctx_size as u64));
    push_line(&mut v, owned("-ngl"));
    push_line(&mut v, fmt_i64(p.n_gpu_layers as i64));
    let ghost head = views(v@);
    let mut i: usize = 0;
    while i < p.extra_args.len()
        invariant
            0 <= i <= p.extra_args.len(),
            views(v@) == head + views(p.extra_args@.take(i as int)),
        decreases p.extra_args.len() - i,
    {
        push_line(&mut v, owned(p.extra_args[i].as_str()));
        assert(views(p.extra_args@.take(i + 1)) =~= views(p.extra_args@.take(i as int)).push(
            p.extra_args@[i as int]@,
        ));
        i += 1;
    }
    assert(p.extra_args@.take(i as int) =~= p.extra_args@);
    assert(views(v@) =~= llama_args_of(*p));
    v
}

/// `llama-server` is only started on a model file that exists
/// (`model_exists`).
pub fn check_model_file(model: &str, model_exists: bool) -> (r: Result<(), OaasError>)
    ensures
        model_exists <==> r is Ok,
        r matches Err(e) ==> e.model() == ErrorModel::Config("fichier modèle introuvable: "@ + model@),
{
    if model_exists {
        Ok(())
    } else {
        Err(OaasError::Config(owned("fichier modèle introuvable: ").concat(model)))
    }
}

/// The base URL of the `llama-server` of a profile listening on `port`.
pub fn upstream_base(port: u16) -> (r: String)
    ensures
        r@ == "http://127.0.0.1:"@ + decimal(port as nat),
{
    let p = fmt_u64(port as u64);
    owned("http://127.0.0.1:").concat(p.as_str())
}

/// The two URLs probed until `llama-server` answers: `/v1/models`, then
/// `/health`, under `base` (its trailing slashes dropped).
pub fn readiness_urls(base: &str) -> (r: (String, String))
    ensures
        r.0@ == trim_end_char(base@, '/') + "/v1/models"@,
        r.1@ == trim_end_char(base@, '/') + "/health"@,
{
    let b = trim_end_matches(base, '/');
    (owned(b.as_str()).concat("/v1/models"), b.concat("/health"))
}

/// The `Debug` text of a `std::time::Duration` of `secs` whole seconds: the
/// seconds in decimal followed by `s`, or `0ns` for a zero duration (whole
/// values print no fractional part).
pub open spec fn duration_debug(secs: u64) -> Seq<char> {
    if secs == 0 {
        "0ns"@
    } else {
        decimal(secs as nat) + "s"@
    }
}

/// `format!("{:?}", Duration::from_secs(secs))`, as [`duration_debug`]
/// states it.
#[verifier::external_body]
fn duration_text(secs: u64) -> (r: String)
    ensures
        r@ == duration_debug(secs),
{
    format!("{:?}", std::time::Duration::from_secs(secs))
}

/// The error once `llama-server` did not answer within the timeout, from
/// the timeout's text.
pub fn readiness_timeout_error_from(timeout_text: &str) -> (e: OaasError)
    ensures
        e.model() == ErrorModel::Backend(
            "timeout après "@ + timeout_text@ + " — vérifie le binaire llama-server et le modèle"@,
        ),
{
    OaasError::Backend(owned("timeout après ").concat(timeout_text).concat(
        " — vérifie le binaire llama-server et le modèle",
    ))
}

/// What the wait for `llama-server` does next.
#[derive(Debug, Clone, PartialEq, Eq)]
pub enum ReadyAction {
    /// Give up with this error.
    Fail(OaasError),
    /// `llama-server` answered: the wait is over.
    Done,
    /// Probe this URL.
    Probe(String),
    /// Sleep 150 ms, then start a new round.
    Wait,
}

/// Where the wait for `llama-server` stands.
#[derive(Debug, Clone, PartialEq, Eq)]
pub enum ReadyStage {
    /// A round starts: the clock is checked.
    RoundStart,
    /// `/v1/models` was probed.
    ModelsProbed,
    /// `/health` was probed.
    HealthProbed,
}

/// The next action of the wait for `llama-server` at `base` with a timeout
/// of `timeout_secs`: at the start of a round, fail once `timed_out`, else
/// probe `/v1/models`; after a probe that succeeded, stop; after
/// `/v1/models` failed, probe `/health`; after `/health` failed, wait.
pub fn ready_next(stage: ReadyStage, timed_out: bool, probe_ok: bool, base: &str, timeout_secs: u64) -> (a:
    ReadyAction)
    ensures
        match stage {
            ReadyStage::RoundStart => if timed_out {
                a matches ReadyAction::Fail(e) && e.model() == ErrorModel::Backend(
                    "timeout après "@ + duration_debug(timeout_secs)
                        + " — vérifie le binaire llama-server et le modèle"@,
                )
            } else {
                a matches ReadyAction::Probe(u) && u@ == trim_end_char(base@, '/') + "/v1/models"@
            },
            ReadyStage::ModelsProbed => if probe_ok {
                a is Done
            } else {
                a matches ReadyAction::Probe(u) && u@ == trim_end_char(base@, '/') + "/health"@
            },
            ReadyStage::HealthProbed => if probe_ok {
                a is Done
            } else {
                a is Wait
            },
        },
{
    let (models_url, health_url) = readiness_urls(base);
    match stage {
        ReadyStage::RoundStart => if timed_out {
            let t = duration_text(timeout_secs);
            ReadyAction::Fail(readiness_timeout_error_from(t.as_str()))
        } else {
            ReadyAction::Probe(models_url)
        },
        ReadyStage::ModelsProbed => if probe_ok {
            ReadyAction::Done
        } else {
            ReadyAction::Probe(health_url)
        },
        ReadyStage::HealthProbed => if probe_ok {
            ReadyAction::Done
        } else {
            ReadyAction::Wait
        },
    }
}

} // verus!
