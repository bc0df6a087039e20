//! The workstation summary of `oaas status` (also served as
//! `GET /oaas/workstation.json`): which checks are made, from the loaded
//! configuration, and what their outcomes say.
//!
//! The checks themselves (files, commands, sockets, HTTP) are made by the
//! caller: [`workstation_plan`] says what to check, [`workstation_status`]
//! turns the outcomes into the summary.
use vstd::prelude::*;

use crate::config::ConfigFile;
use crate::continue_ide::{continue_has_oaas_of, continue_json_has_oaas_block, continue_yaml_has_oaas_block};
use crate::doc::Value;
use crate::error::{error_text, OaasError};
use crate::serve_dashboard::{client_facing_host, client_host_of};
use crate::text::{concat2, concat3, contains, debug_quoted, debug_str, has_substring, owned, trim_end_char};

verus! {

/// How the running binary was built, read from its path.
pub open spec fn build_kind_of(exe: Seq<char>) -> Seq<char> {
    if has_substring(exe, "target/debug"@) {
        "debug"@
    } else if has_substring(exe, "target/release"@) {
        "release"@
    } else {
        "installed_or_other"@
    }
}

/// `debug` for a binary under `target/debug`, `release` under
/// `target/release`, `installed_or_other` otherwise.
pub fn classify_exe(exe: &str) -> (r: String)
    ensures
        r@ == build_kind_of(exe@),
{
    if contains(exe, "target/debug") {
        owned("debug")
    } else if contains(exe, "target/release") {
        owned("release")
    } else {
        owned("installed_or_other")
    }
}

/// The prompt-compression check to make.
#[derive(Debug, Clone, PartialEq, Eq)]
pub enum LlmlinguaCheck {
    /// No configuration could be loaded: nothing is checked.
    NoConfig,
    /// Compression is off: nothing to check.
    Disabled,
    /// Compression is on but its command is empty.
    EmptyCommand,
    /// Run `command -c "import llmlingua"`; `failure_note` is the note
    /// shown when that fails.
    Probe { command: String, failure_note: String },
}

/// What to check on this machine, from the configuration (if it loaded).
#[derive(Debug, Clone, PartialEq, Eq)]
pub struct WorkstationPlan {
    pub config_loaded: bool,
    pub llmlingua_enabled: bool,
    pub llmlingua: LlmlinguaCheck,
    /// The `llama-server` binary configured (`runtime.llama_server_binary`).
    pub llama_binary: Option<String>,
    pub profile_found: bool,
    /// The model file of the profile, to test for existence.
    pub model_path: Option<String>,
    pub oaas_bind: Option<String>,
    /// The address to probe (TCP, then `GET /oaas/`).
    pub probe_host: Option<String>,
    /// The API base a Continue configuration should name.
    pub api_for_continue: String,
}

/// What a plan made by [`workstation_plan`] always keeps: the server address
/// and the probed host are known exactly when a configuration is loaded, and
/// a model path exactly when the profile was found in it.
pub open spec fn plan_consistent(p: WorkstationPlan) -> bool {
    &&& p.oaas_bind.is_some() == p.config_loaded
    &&& p.probe_host.is_some() == p.config_loaded
    &&& p.model_path.is_some() == p.profile_found
    &&& (p.profile_found ==> p.config_loaded)
}

/// The API base named when no configuration is loaded.
pub open spec fn default_api_for_continue() -> Seq<char> {
    "http://127.0.0.1:11435/v1"@
}

/// The plan for configuration `cfg` (`None`: absent or unreadable) and
/// profile `profile`.
pub fn workstation_plan(cfg: Option<&ConfigFile>, profile: &str) -> (p: WorkstationPlan)
    ensures
        p.config_loaded == cfg.is_some(),
        plan_consistent(p),
        match cfg {
            None => {
                &&& !p.llmlingua_enabled
                &&& p.llmlingua is NoConfig
                &&& p.llama_binary is None
                &&& !p.profile_found
                &&& p.model_path is None
                &&& p.oaas_bind is None
                &&& p.probe_host is None
                &&& p.api_for_continue@ == default_api_for_continue()
            },
            Some(c) => {
                let pc = c.prompt_compression;
                &&& p.llmlingua_enabled == pc.enabled
                &&& (!pc.enabled ==> p.llmlingua is Disabled)
                &&& (pc.enabled && pc.command.len() == 0 ==> p.llmlingua is EmptyCommand)
                &&& (pc.enabled && pc.command.len() > 0 ==> (p.llmlingua matches LlmlinguaCheck::Probe {
                    command,
                    failure_note,
                } && command@ == pc.command@[0]@ && failure_note@ == "import llmlingua via "@
                    + debug_quoted(command@)))
                &&& match c.runtime.llama_server_binary {
                    Some(b) => p.llama_binary matches Some(q) && q@ == b@,
                    None => p.llama_binary is None,
                }
                &&& p.profile_found == c.profiles.lookup(profile@).is_some()
                &&& match c.profiles.lookup(profile@) {
                    Some(pr) => p.model_path matches Some(m) && m@ == pr.model@,
                    None => p.model_path is None,
                }
                &&& p.oaas_bind matches Some(b) && b@ == c.server.bind@
                &&& p.probe_host matches Some(h) && h@ == client_host_of(c.server.bind@)
                &&& p.api_for_continue@ == "http://"@ + client_host_of(c.server.bind@) + "/v1"@
            },
        },
{
    match cfg {
        None => WorkstationPlan {
            config_loaded: false,
            llmlingua_enabled: false,
            llmlingua: LlmlinguaCheck::NoConfig,
            llama_binary: None,
            profile_found: false,
            model_path: None,
            oaas_bind: None,
            probe_host: None,
            api_for_continue: owned("http://127.0.0.1:11435/v1"),
        },
        Some(c) => {
            let pc = &c.prompt_compression;
            let llmlingua = if !pc.enabled {
                LlmlinguaCheck::Disabled
            } else if pc.command.len() == 0 {
                LlmlinguaCheck::EmptyCommand
            } else {
                let command = owned(pc.command[0].as_str());
                let quoted = debug_str(command.as_str());
                let failure_note = concat2("import llmlingua via ", quoted.as_str());
                LlmlinguaCheck::Probe { command, failure_note }
            };
            let llama_binary = match &c.runtime.llama_server_binary {
                Some(b) => Some(owned(b.as_str())),
                None => None,
            };
            let (profile_found, model_path) = match c.profiles.get(profile) {
                Some(pr) => (true, Some(owned(pr.model.as_str()))),
                None => (false, None),
            };
            let host = client_facing_host(c.server.bind.as_str());
            let api_for_continue = concat3("http://", host.as_str(), "/v1");
            WorkstationPlan {
                config_loaded: true,
                llmlingua_enabled: pc.enabled,
                llmlingua,
                llama_binary,
                profile_found,
                model_path,
                oaas_bind: Some(owned(c.server.bind.as_str())),
                probe_host: Some(host),
                api_for_continue,
            }
        },
    }
}

/// The outcome of `GET /oaas/` on the probed address.
#[derive(Debug, Clone, PartialEq, Eq)]
pub enum HttpProbe {
    /// A success status.
    Success,
    /// Another status, as displayed (such as `404 Not Found`).
    Status(String),
    /// The request could not be made; the error's text.
    Failed(String),
}

/// The outcomes of the checks of a [`WorkstationPlan`], and what was read
/// of the machine.
#[derive(Debug, PartialEq, Eq)]
pub struct WorkstationFacts {
    pub config_path: String,
    pub config_present: bool,
    /// Whether `import llmlingua` succeeded (when the plan asked for it).
    pub llmlingua_import_ok: bool,
    /// The `llama-server` found for the plan's `llama_binary` (as
    /// [`resolve_llama_binary`] gives it).
    pub llama: Result<String, OaasError>,
    /// Whether the model file of the profile is a file.
    pub model_file_ok: bool,
    /// Whether a TCP connection to the probed address succeeded.
    pub tcp_listen_open: bool,
    /// The outcome of `GET /oaas/`, when it was made.
    pub http: Option<HttpProbe>,
    pub continue_yaml: String,
    pub continue_json: String,
    pub continue_yaml_exists: bool,
    pub continue_json_exists: bool,
    /// The global Continue YAML file, parsed (`None`: unreadable).
    pub continue_yaml_doc: Option<Value>,
    /// The global Continue JSON file, parsed (`None`: unreadable).
    pub continue_json_doc: Option<Value>,
    pub current_exe: String,
    pub cargo_manifest_dir: String,
    /// Whether `cargo fmt -- --check` succeeded (read only when the checks
    /// were run).
    pub cargo_fmt_ok: bool,
    /// Whether `cargo clippy --all-targets -- -D warnings` succeeded (read
    /// only when the checks were run).
    pub cargo_clippy_ok: bool,
    /// Whether `cargo build` succeeded (read only when the checks were run).
    pub cargo_build_ok: bool,
}

/// The workstation summary.
#[derive(Debug, Clone, PartialEq, Eq)]
pub struct WorkstationStatus {
    pub config_path: String,
    pub config_present: bool,
    pub config_parse_ok: bool,
    pub profile: String,
    pub profile_found: bool,
    pub model_path: Option<String>,
    pub model_file_ok: bool,
    pub llama_binary_ok: bool,
    pub llama_binary_note: Option<String>,
    pub llmlingua_enabled: bool,
    pub llmlingua_ok: bool,
    pub llmlingua_note: Option<String>,
    pub oaas_bind: Option<String>,
    pub tcp_listen_open: bool,
    pub http_oaas_ui_ok: bool,
    pub http_note: Option<String>,
    pub continue_yaml: String,
    pub continue_json: String,
    pub continue_yaml_exists: bool,
    pub continue_json_exists: bool,
    pub continue_preferred: String,
    pub continue_has_oaas: bool,
    pub current_exe: String,
    pub build_kind: String,
    pub cargo_manifest_dir: String,
    pub cargo_fmt_ok: Option<bool>,
    pub cargo_clippy_ok: Option<bool>,
    pub cargo_build_ok: Option<bool>,
}

/// Which Continue file is preferred: the YAML one when it exists, else the
/// JSON one, else none yet.
pub open spec fn preferred_of(yaml_exists: bool, json_exists: bool) -> Seq<char> {
    if yaml_exists {
        "yaml"@
    } else if json_exists {
        "json"@
    } else {
        "none_yet"@
    }
}

/// Whether `llama-server` was found, and the note: its path, or the error.
pub open spec fn llama_outcome(r: Result<String, OaasError>) -> (bool, Seq<char>) {
    match r {
        Ok(p) => (true, p@),
        Err(e) => (false, error_text(e.model())),
    }
}

/// Whether prompt compression is usable, and the note, for a check and the
/// outcome of the import.
pub open spec fn llmlingua_outcome(check: LlmlinguaCheck, import_ok: bool) -> (bool, Option<Seq<char>>) {
    match check {
        LlmlinguaCheck::NoConfig => (false, None),
        LlmlinguaCheck::Disabled => (true, None),
        LlmlinguaCheck::EmptyCommand => (false, Some("command vide"@)),
        LlmlinguaCheck::Probe { command, failure_note } => if import_ok {
            (true, None)
        } else {
            (false, Some(failure_note@))
        },
    }
}

/// The note on the HTTP probe, when the TCP probe succeeded.
pub open spec fn http_note_of(http: Option<HttpProbe>) -> Option<Seq<char>> {
    match http {
        Some(HttpProbe::Status(s)) => Some("GET /oaas/ → "@ + s@),
        Some(HttpProbe::Failed(e)) => Some(e@),
        _ => None,
    }
}

pub open spec fn opt_view(o: Option<String>) -> Option<Seq<char>> {
    match o {
        Some(s) => Some(s@),
        None => None,
    }
}

fn llmlingua_result(check: &LlmlinguaCheck, import_ok: bool) -> (r: (bool, Option<String>))
    ensures
        r.0 == llmlingua_outcome(*check, import_ok).0,
        opt_view(r.1) == llmlingua_outcome(*check, import_ok).1,
{
    match check {
        LlmlinguaCheck::NoConfig => (false, None),
        LlmlinguaCheck::Disabled => (true, None),
        LlmlinguaCheck::EmptyCommand => (false, Some(owned("command vide"))),
        LlmlinguaCheck::Probe { command: _, failure_note } => if import_ok {
            (true, None)
        } else {
            (false, Some(owned(failure_note.as_str())))
        },
    }
}

fn http_result(tcp_open: bool, http: &Option<HttpProbe>) -> (r: (bool, Option<String>))
    ensures
        r.0 == (tcp_open && http matches Some(HttpProbe::Success)),
        opt_view(r.1) == (if tcp_open { http_note_of(*http) } else { None }),
{
    if !tcp_open {
        return (false, None);
    }
    match http {
        Some(HttpProbe::Success) => (true, None),
        Some(HttpProbe::Status(s)) => (false, Some(concat2("GET /oaas/ → ", s.as_str()))),
        Some(HttpProbe::Failed(e)) => (false, Some(owned(e.as_str()))),
        None => (false, None),
    }
}

/// The summary, from the plan, the outcomes of its checks, the profile asked
/// for and whether the `cargo` checks were run (`run_ci`). A configuration is
/// only loaded from a file that is present.
pub fn workstation_status(plan: WorkstationPlan, facts: WorkstationFacts, profile: &str, run_ci: bool) -> (s:
    WorkstationStatus)
    requires
        plan_consistent(plan),
        plan.config_loaded ==> facts.config_present,
    ensures
        s.config_parse_ok ==> s.config_present,
        s.oaas_bind.is_some() == s.config_parse_ok,
        s.profile_found == s.model_path.is_some(),
        s.model_file_ok ==> s.profile_found,
        s.http_oaas_ui_ok ==> s.tcp_listen_open,
        s.cargo_fmt_ok.is_some() == run_ci,
        s.cargo_clippy_ok.is_some() == run_ci,
        s.cargo_build_ok.is_some() == run_ci,
        s.config_path@ == facts.config_path@,
        s.config_present == facts.config_present,
        s.config_parse_ok == plan.config_loaded,
        s.profile@ == profile@,
        s.profile_found == plan.profile_found,
        opt_view(s.model_path) == opt_view(plan.model_path),
        s.model_file_ok == (plan.model_path.is_some() && facts.model_file_ok),
        s.llama_binary_ok == llama_outcome(facts.llama).0,
        opt_view(s.llama_binary_note) == Some(llama_outcome(facts.llama).1),
        s.llmlingua_enabled == plan.llmlingua_enabled,
        s.llmlingua_ok == llmlingua_outcome(plan.llmlingua, facts.llmlingua_import_ok).0,
        opt_view(s.llmlingua_note) == llmlingua_outcome(plan.llmlingua, facts.llmlingua_import_ok).1,
        opt_view(s.oaas_bind) == opt_view(plan.oaas_bind),
        s.tcp_listen_open == (plan.probe_host.is_some() && facts.tcp_listen_open),
        s.http_oaas_ui_ok == (s.tcp_listen_open && facts.http matches Some(HttpProbe::Success)),
        opt_view(s.http_note) == (if s.tcp_listen_open { http_note_of(facts.http) } else { None }),
        s.continue_yaml@ == facts.continue_yaml@,
        s.continue_json@ == facts.continue_json@,
        s.continue_yaml_exists == facts.continue_yaml_exists,
        s.continue_json_exists == facts.continue_json_exists,
        s.continue_preferred@ == preferred_of(facts.continue_yaml_exists, facts.continue_json_exists),
        s.continue_has_oaas == continue_has_oaas_of(
            facts.continue_yaml_exists,
            facts.continue_yaml_doc,
            facts.continue_json_exists,
            facts.continue_json_doc,
            plan.api_for_continue@,
        ),
        s.current_exe@ == facts.current_exe@,
        s.build_kind@ == build_kind_of(facts.current_exe@),
        s.cargo_manifest_dir@ == facts.cargo_manifest_dir@,
        s.cargo_fmt_ok == (if run_ci { Some(facts.cargo_fmt_ok) } else { None }),
        s.cargo_clippy_ok == (if run_ci { Some(facts.cargo_clippy_ok) } else { None }),
        s.cargo_build_ok == (if run_ci { Some(facts.cargo_build_ok) } else { None }),
{
    let (llama_binary_ok, llama_note) = match &facts.llama {
        Ok(p) => (true, owned(p.as_str())),
        Err(e) => (false, e.to_text()),
    };
    let (llmlingua_ok, llmlingua_note) = llmlingua_result(&plan.llmlingua, facts.llmlingua_import_ok);
    let tcp_listen_open = plan.probe_host.is_some() && facts.tcp_listen_open;
    let (http_oaas_ui_ok, http_note) = http_result(tcp_listen_open, &facts.http);
    let continue_preferred = if facts.continue_yaml_exists {
        owned("yaml")
    } else if facts.continue_json_exists {
        owned("json")
    } else {
        owned("none_yet")
    };
    let yaml_has = facts.continue_yaml_exists && continue_yaml_has_oaas_block(
        facts.continue_yaml_doc.as_ref(),
        plan.api_for_continue.as_str(),
    );
    let json_has = facts.continue_json_exists && continue_json_has_oaas_block(
        facts.continue_json_doc.as_ref(),
        plan.api_for_continue.as_str(),
    );
    let build_kind = classify_exe(facts.current_exe.as_str());
    let model_file_ok = plan.model_path.is_some() && facts.model_file_ok;
    let (cargo_fmt_ok, cargo_clippy_ok, cargo_build_ok) = if run_ci {
        (Some(facts.cargo_fmt_ok), Some(facts.cargo_clippy_ok), Some(facts.cargo_build_ok))
    } else {
        (None, None, None)
    };
    WorkstationStatus {
        config_path: facts.config_path,
        config_present: facts.config_present,
        config_parse_ok: plan.config_loaded,
        profile: owned(profile),
        profile_found: plan.profile_found,
        model_path: plan.model_path,
        model_file_ok,
        llama_binary_ok,
        llama_binary_note: Some(llama_note),
        llmlingua_enabled: plan.llmlingua_enabled,
        llmlingua_ok,
        llmlingua_note,
        oaas_bind: plan.oaas_bind,
        tcp_listen_open,
        http_oaas_ui_ok,
        http_note,
        continue_yaml: facts.continue_yaml,
        continue_json: facts.continue_json,
        continue_yaml_exists: facts.continue_yaml_exists,
        continue_json_exists: facts.continue_json_exists,
        continue_preferred,
        continue_has_oaas: yaml_has || json_has,
        current_exe: facts.current_exe,
        build_kind,
        cargo_manifest_dir: facts.cargo_manifest_dir,
        cargo_fmt_ok,
        cargo_clippy_ok,
        cargo_build_ok,
    }
}

} // verus!
