//! The decisions of `oaas doctor`: when the LLMLingua setup counts as
//! broken, and what `--fix` does about it.
use vstd::prelude::*;

use crate::config::{ConfigFile, Profile, PromptCompressionConfig};
use crate::error::{error_text, OaasError};
use crate::project_status::{llama_outcome, opt_view};
use crate::text::{debug_list, debug_quoted, debug_str, debug_strings, ends_with, has_suffix, owned, push_line, str_eq, views};

verus! {

/// What to do when the LLMLingua check fails.
pub const LLMLINGUA_REMEDIATION_FR: &'static str = "installe le module Python : pip install -r scripts/requirements-llmlingua.txt (ou make llmlingua-venv), sinon mets prompt_compression.enabled: false (oaas doctor --fix)";

/// Command entry `i` is a `.py` script that is not among the paths that exist.
pub open spec fn script_missing_at(pc: PromptCompressionConfig, existing: Seq<String>, i: int) -> bool {
    &&& 0 <= i < pc.command@.len()
    &&& has_suffix(pc.command@[i]@, ".py"@)
    &&& !(exists|k: int| 0 <= k < existing.len() && existing[k]@ == pc.command@[i]@)
}

/// Whether `path` is among `existing`.
fn is_listed(existing: &Vec<String>, path: &str) -> (r: bool)
    ensures
        r == exists|k: int| 0 <= k < existing@.len() && existing@[k]@ == path@,
{
    let mut k: usize = 0;
    while k < existing.len()
        invariant
            0 <= k <= existing.len(),
            forall|j: int| 0 <= j < k ==> existing@[j]@ != path@,
        decreases existing.len() - k,
    {
        if str_eq(existing[k].as_str(), path) {
            return true;
        }
        k += 1;
    }
    false
}

/// Whether a `.py` argument of the compression command is missing from the
/// disk; `existing` lists the command's arguments that exist as paths.
pub fn llmlingua_script_missing(pc: &PromptCompressionConfig, existing: &Vec<String>) -> (r: bool)
    ensures
        r == exists|i: int| script_missing_at(*pc, existing@, i),
{
    let mut i: usize = 0;
    while i < pc.command.len()
        invariant
            0 <= i <= pc.command.len(),
            forall|j: int| 0 <= j < i ==> !script_missing_at(*pc, existing@, j),
        decreases pc.command.len() - i,
    {
        let arg = pc.command[i].as_str();
        if ends_with(arg, ".py") && !is_listed(existing, arg) {
            assert(script_missing_at(*pc, existing@, i as int));
            return true;
        }
        i += 1;
    }
    false
}

/// The LLMLingua setup is broken: compression is enabled and the command is
/// empty, names a missing script, or cannot import `llmlingua`
/// (`import_ok` is the outcome of that import).
pub open spec fn config_broken(pc: PromptCompressionConfig, existing: Seq<String>, import_ok: bool) -> bool {
    pc.enabled && (pc.command@.len() == 0 || (exists|i: int| script_missing_at(pc, existing, i))
        || !import_ok)
}

/// Whether the LLMLingua setup is broken.
pub fn llmlingua_config_broken(pc: &PromptCompressionConfig, existing: &Vec<String>, import_ok: bool) -> (r:
    bool)
    ensures
        r == config_broken(*pc, existing@, import_ok),
{
    if !pc.enabled {
        return false;
    }
    if pc.command.len() == 0 {
        return true;
    }
    if llmlingua_script_missing(pc, existing) {
        return true;
    }
    !import_ok
}

/// The first `.py` argument of a command.
pub open spec fn first_script(cmd: Seq<String>) -> Option<Seq<char>>
    decreases cmd.len(),
{
    if cmd.len() == 0 {
        None
    } else if has_suffix(cmd[0]@, ".py"@) {
        Some(cmd[0]@)
    } else {
        first_script(cmd.skip(1))
    }
}

/// The worker script the doctor reports on: the first `.py` argument.
pub fn worker_script(pc: &PromptCompressionConfig) -> (r: Option<String>)
    ensures
        opt_view(r) == first_script(pc.command@),
{
    let ghost cmd = pc.command@;
    let mut i: usize = 0;
    assert(cmd.skip(0) =~= cmd);
    while i < pc.command.len()
        invariant
            0 <= i <= pc.command.len(),
            cmd == pc.command@,
            first_script(cmd) == first_script(cmd.skip(i as int)),
        decreases pc.command.len() - i,
    {
        assert(cmd.skip(i as int)[0] == cmd[i as int]);
        if ends_with(pc.command[i].as_str(), ".py") {
            return Some(pc.command[i].clone());
        }
        assert(cmd.skip(i as int).skip(1) =~= cmd.skip(i + 1));
        i += 1;
    }
    assert(cmd.skip(i as int).len() == 0);
    None
}

/// What `oaas doctor` does about a broken LLMLingua setup.
#[derive(Debug, Clone, PartialEq, Eq)]
pub enum FixAction {
    /// `--fix` given and the setup is broken: set `prompt_compression.enabled: false`.
    DisableCompression,
    /// `--fix` given but nothing to correct.
    NothingToFix,
    /// No `--fix`, setup broken: suggest running with `--fix`.
    SuggestFix,
    /// No `--fix`, nothing broken.
    Nothing,
}

/// The doctor's action for `--fix` (`fix`) and a broken setup (`broken`).
pub open spec fn fix_action_of(fix: bool, broken: bool) -> FixAction {
    if fix {
        if broken {
            FixAction::DisableCompression
        } else {
            FixAction::NothingToFix
        }
    } else if broken {
        FixAction::SuggestFix
    } else {
        FixAction::Nothing
    }
}

/// The doctor's action for `--fix` (`fix`) and a broken setup (`broken`).
pub fn fix_action(fix: bool, broken: bool) -> (a: FixAction)
    ensures
        a == fix_action_of(fix, broken),
{
    if fix {
        if broken {
            FixAction::DisableCompression
        } else {
            FixAction::NothingToFix
        }
    } else if broken {
        FixAction::SuggestFix
    } else {
        FixAction::Nothing
    }
}


/// What `oaas doctor` found on the machine once the configuration is read.
#[derive(Debug, PartialEq, Eq)]
pub struct DoctorChecks {
    /// The `llama-server` found for the configuration (as
    /// `resolve_llama_binary` gives it; without a configuration, through
    /// `PATH`).
    pub llama: Result<String, OaasError>,
    /// The arguments of the compression command that exist as paths.
    pub existing_paths: Vec<String>,
    /// Whether `import llmlingua` succeeded with the command.
    pub import_ok: bool,
    /// Whether the profile's model file exists.
    pub model_exists: bool,
    /// The outcome of writing `prompt_compression.enabled: false` (read
    /// only when that correction was made).
    pub fix_written: Result<(), OaasError>,
}

/// What `--fix` does for configuration `cfg`, as [`fix_action`] says for
/// its compression setup. The profile plays no part: a missing profile is
/// reported, and a broken setup is still turned off.
pub fn doctor_fix_plan(cfg: &ConfigFile, checks: &DoctorChecks, fix: bool) -> (a: FixAction)
    ensures
        a == fix_action_of(fix, config_broken(cfg.prompt_compression, checks.existing_paths@, checks.import_ok)),
{
    let broken = llmlingua_config_broken(&cfg.prompt_compression, &checks.existing_paths, checks.import_ok);
    fix_action(fix, broken)
}

/// `p` is among the existing paths.
pub open spec fn listed(existing: Seq<String>, p: Seq<char>) -> bool {
    exists|k: int| 0 <= k < existing.len() && existing[k]@ == p
}

/// The doctor's lines on prompt compression.
pub open spec fn llmlingua_lines(pc: PromptCompressionConfig, checks: DoctorChecks) -> Seq<Seq<char>> {
    if !pc.enabled {
        seq!["• LLMLingua : désactivé (prompt_compression.enabled: false)"@]
    } else if pc.command@.len() == 0 {
        seq!["• LLMLingua : activé (compression avant llama-server)"@, "✗ prompt_compression.command vide"@]
    } else {
        let script = match first_script(pc.command@) {
            Some(sc) => if listed(checks.existing_paths@, sc) {
                seq!["✓ script worker : "@ + sc]
            } else {
                seq![
                    "✗ script worker introuvable : "@ + sc
                        + " — utilise un chemin absolu ou lance depuis la racine du dépôt"@,
                ]
            },
            None => seq![],
        };
        let import = if checks.import_ok {
            seq!["✓ module Python « llmlingua » importable"@]
        } else {
            seq![
                "✗ impossible d’importer llmlingua avec "@ + debug_quoted(pc.command@[0]@)
                    + " — pip install -r scripts/requirements-llmlingua.txt (voir README)"@,
                "  Astuce : make llmlingua-venv dans le dépôt, ou prompt_compression.enabled: false si tu n’utilises pas la compression."@,
            ]
        };
        seq![
            "• LLMLingua : activé (compression avant llama-server)"@,
            "  commande : "@ + debug_list(views(pc.command@)),
        ] + script + import
    }
}

/// The closing reminders of the doctor.
pub open spec fn doctor_trailer() -> Seq<Seq<char>> {
    seq![
        "\nRappel GGUF : format de fichier unique pour faire tourner un LLM avec llama.cpp / llama-server (quantifié Q4/Q5/Q8…). Ce n’est pas une « clé API », c’est le modèle sur ton disque."@,
        "\nOAAS remplace Ollama pour ce flux : Continue → URL http://<bind>/v1 (pas de démon Ollama requis)."@,
        "\nContinue : base URL http://<bind>/v1  (ex. http://127.0.0.1:11435/v1 selon server.bind)."@,
        "\nModèles GGUF : oaas models recommend | oaas models list | oaas models pull <id> --patch-config"@,
        "Sans « oaas » dans le PATH (clone du dépôt) : cargo run -- models … ou make models-recommend / make models-pull ID=<id>."@,
        "Documentation : oaas docs list | oaas docs pull <id>   (depuis le dépôt : make docs-list, cargo run -- docs …)"@,
    ]
}

/// The doctor's lines on `--fix`.
pub open spec fn fix_lines(config_path: Seq<char>, broken: bool, fix: bool, written: Result<(), OaasError>) -> Seq<
    Seq<char>,
> {
    if fix {
        if broken {
            seq![
                ""@,
                match written {
                    Ok(_) => "✓ Correction : prompt_compression.enabled → false dans "@ + config_path,
                    Err(e) => "✗ impossible d’écrire la correction dans le YAML : "@ + error_text(e.model()),
                },
                "  Relance : make doctor   (le fichier a été réécrit ; les commentaires YAML ne sont pas conservés.)"@,
            ]
        } else {
            seq![
                ""@,
                "• Aucune correction automatique appliquée (LLMLingua déjà OK ou désactivé)."@,
                "  Les autres points (llama-server, chemin .gguf…) ne sont pas modifiés par --fix."@,
            ]
        }
    } else if broken {
        seq!["\n→ Correction automatique :   cargo run -- doctor --fix   ou   make doctor-fix"@]
    } else {
        seq![]
    }
}

/// The doctor's lines from the profile on.
pub open spec fn profile_lines(
    config_path: Seq<char>,
    cfg: ConfigFile,
    profile: Seq<char>,
    checks: DoctorChecks,
    fix: bool,
) -> Seq<Seq<char>> {
    let broken = config_broken(cfg.prompt_compression, checks.existing_paths@, checks.import_ok);
    match cfg.profiles.lookup(profile) {
        None => seq![
            "✗ profil « "@ + profile + " » introuvable — disponibles : "@ + debug_list(
                views(cfg.profiles@.map_values(|e: (String, Profile)| e.0)),
            ),
        ] + fix_lines(config_path, broken, fix, checks.fix_written),
        Some(p) => {
            let model = if checks.model_exists {
                "✓ modèle GGUF : "@ + p.model@
            } else {
                "✗ modèle introuvable : "@ + p.model@
                    + "\n  Un fichier .gguf contient les poids du réseau (format llama.cpp). Télécharge-en un (ex. Hugging Face) puis mets le chemin absolu dans le YAML."@
            };
            seq![model] + fix_lines(config_path, broken, fix, checks.fix_written) + doctor_trailer()
        },
    }
}

/// What `oaas doctor` prints, line by line, for configuration file
/// `config_path` (`load`: `None` when it does not exist, else the outcome
/// of reading it), profile `profile`, the checks made and `--fix`.
pub open spec fn doctor_lines(
    config_path: Seq<char>,
    load: Option<Result<ConfigFile, OaasError>>,
    profile: Seq<char>,
    checks: DoctorChecks,
    fix: bool,
) -> Seq<Seq<char>> {
    let head = "OAAS — diagnostic\n"@;
    match load {
        None => seq![
            head,
            "✗ configuration absente : "@ + config_path + "\n  → lance : oaas init-config   ou   make init-config"@,
            match checks.llama {
                Ok(p) => "\n(llama-server trouvé dans le PATH : "@ + p@ + ")"@,
                Err(_) => "\n(llama-server absent du PATH — installe llama.cpp.)"@,
            },
        ],
        Some(Err(e)) => seq![
            head,
            "✓ fichier de configuration : "@ + config_path,
            "✗ lecture / parse YAML : "@ + error_text(e.model()),
        ],
        Some(Ok(cfg)) => {
            let llama = llama_outcome(checks.llama);
            seq![
                head,
                "✓ fichier de configuration : "@ + config_path,
                if llama.0 {
                    "✓ llama-server : "@ + llama.1
                } else {
                    "✗ llama-server : "@ + llama.1
                },
            ] + llmlingua_lines(cfg.prompt_compression, checks) + profile_lines(config_path, cfg, profile, checks, fix)
        },
    }
}

fn push_llmlingua(v: &mut Vec<String>, pc: &PromptCompressionConfig, checks: &DoctorChecks)
    ensures
        views(final(v)@) == views(old(v)@) + llmlingua_lines(*pc, *checks),
{
    let ghost v0 = views(v@);
    if !pc.enabled {
        push_line(v, owned("• LLMLingua : désactivé (prompt_compression.enabled: false)"));
    } else if pc.command.len() == 0 {
        push_line(v, owned("• LLMLingua : activé (compression avant llama-server)"));
        push_line(v, owned("✗ prompt_compression.command vide"));
    } else {
        push_line(v, owned("• LLMLingua : activé (compression avant llama-server)"));
        let listing = debug_strings(&pc.command);
        push_line(v, owned("  commande : ").concat(listing.as_str()));
        match worker_script(pc) {
            Some(sc) => {
                if is_listed(&checks.existing_paths, sc.as_str()) {
                    push_line(v, owned("✓ script worker : ").concat(sc.as_str()));
                } else {
                    push_line(
                        v,
                        owned("✗ script worker introuvable : ").concat(sc.as_str()).concat(
                            " — utilise un chemin absolu ou lance depuis la racine du dépôt",
                        ),
                    );
                }
            },
            None => {},
        }
        if checks.import_ok {
            push_line(v, owned("✓ module Python « llmlingua » importable"));
        } else {
            let quoted = debug_str(pc.command[0].as_str());
            push_line(
                v,
                owned("✗ impossible d’importer llmlingua avec ").concat(quoted.as_str()).concat(
                    " — pip install -r scripts/requirements-llmlingua.txt (voir README)",
                ),
            );
            push_line(
                v,
                owned(
                    "  Astuce : make llmlingua-venv dans le dépôt, ou prompt_compression.enabled: false si tu n’utilises pas la compression.",
                ),
            );
        }
    }
    assert(views(v@) =~= v0 + llmlingua_lines(*pc, *checks));
}

fn push_trailer(v: &mut Vec<String>)
    ensures
        views(final(v)@) == views(old(v)@) + doctor_trailer(),
{
    let ghost v0 = views(v@);
    push_line(
        v,
        owned(
            "\nRappel GGUF : format de fichier unique pour faire tourner un LLM avec llama.cpp / llama-server (quantifié Q4/Q5/Q8…). Ce n’est pas une « clé API », c’est le modèle sur ton disque.",
        ),
    );
    push_line(
        v,
        owned("\nOAAS remplace Ollama pour ce flux : Continue → URL http://<bind>/v1 (pas de démon Ollama requis)."),
    );
    push_line(v, owned("\nContinue : base URL http://<bind>/v1  (ex. http://127.0.0.1:11435/v1 selon server.bind)."));
    push_line(v, owned("\nModèles GGUF : oaas models recommend | oaas models list | oaas models pull <id> --patch-config"));
    push_line(
        v,
        owned(
            "Sans « oaas » dans le PATH (clone du dépôt) : cargo run -- models … ou make models-recommend / make models-pull ID=<id>.",
        ),
    );
    push_line(
        v,
        owned("Documentation : oaas docs list | oaas docs pull <id>   (depuis le dépôt : make docs-list, cargo run -- docs …)"),
    );
    assert(views(v@) =~= v0 + doctor_trailer());
}

fn push_fix(v: &mut Vec<String>, config_path: &str, broken: bool, fix: bool, written: &Result<(), OaasError>)
    ensures
        views(final(v)@) == views(old(v)@) + fix_lines(config_path@, broken, fix, *written),
{
    let ghost v0 = views(v@);
    if fix {
        push_line(v, owned(""));
        if broken {
            match written {
                Ok(_) => push_line(
                    v,
                    owned("✓ Correction : prompt_compression.enabled → false dans ").concat(config_path),
                ),
                Err(e) => {
                    let t = e.to_text();
                    push_line(v, owned("✗ impossible d’écrire la correction dans le YAML : ").concat(t.as_str()));
                },
            }
            push_line(
                v,
                owned("  Relance : make doctor   (le fichier a été réécrit ; les commentaires YAML ne sont pas conservés.)"),
            );
        } else {
            push_line(v, owned("• Aucune correction automatique appliquée (LLMLingua déjà OK ou désactivé)."));
            push_line(v, owned("  Les autres points (llama-server, chemin .gguf…) ne sont pas modifiés par --fix."));
        }
    } else if broken {
        push_line(v, owned("\n→ Correction automatique :   cargo run -- doctor --fix   ou   make doctor-fix"));
    }
    assert(views(v@) =~= v0 + fix_lines(config_path@, broken, fix, *written));
}

fn push_profile(v: &mut Vec<String>, config_path: &str, cfg: &ConfigFile, profile: &str, checks: &DoctorChecks, fix: bool)
    ensures
        views(final(v)@) == views(old(v)@) + profile_lines(config_path@, *cfg, profile@, *checks, fix),
{
    let ghost v0 = views(v@);
    match cfg.profiles.get(profile) {
        None => {
            let names = cfg.profiles.names_list();
            assert(views(names@) =~= views(cfg.profiles@.map_values(|e: (String, Profile)| e.0)));
            let listing = debug_strings(&names);
            push_line(
                v,
                owned("✗ profil « ").concat(profile).concat(" » introuvable — disponibles : ").concat(
                    listing.as_str(),
                ),
            );
            let broken = llmlingua_config_broken(&cfg.prompt_compression, &checks.existing_paths, checks.import_ok);
            push_fix(v, config_path, broken, fix, &checks.fix_written);
        },
        Some(p) => {
            if checks.model_exists {
                push_line(v, owned("✓ modèle GGUF : ").concat(p.model.as_str()));
            } else {
                push_line(
                    v,
                    owned("✗ modèle introuvable : ").concat(p.model.as_str()).concat(
                        "\n  Un fichier .gguf contient les poids du réseau (format llama.cpp). Télécharge-en un (ex. Hugging Face) puis mets le chemin absolu dans le YAML.",
                    ),
                );
            }
            let broken = llmlingua_config_broken(&cfg.prompt_compression, &checks.existing_paths, checks.import_ok);
            push_fix(v, config_path, broken, fix, &checks.fix_written);
            push_trailer(v);
        },
    }
    assert(views(v@) =~= v0 + profile_lines(config_path@, *cfg, profile@, *checks, fix));
}

/// What `oaas doctor` prints, one string per printed line.
pub fn doctor_report(
    config_path: &str,
    load: &Option<Result<ConfigFile, OaasError>>,
    profile: &str,
    checks: &DoctorChecks,
    fix: bool,
) -> (lines: Vec<String>)
    ensures
        views(lines@) == doctor_lines(config_path@, *load, profile@, *checks, fix),
{
    let mut v: Vec<String> = Vec::new();
    push_line(&mut v, owned("OAAS — diagnostic\n"));
    match load {
        None => {
            push_line(
                &mut v,
                owned("✗ configuration absente : ").concat(config_path).concat(
                    "\n  → lance : oaas init-config   ou   make init-config",
                ),
            );
            match &checks.llama {
                Ok(p) => push_line(&mut v, owned("\n(llama-server trouvé dans le PATH : ").concat(p.as_str()).concat(")")),
                Err(_) => push_line(&mut v, owned("\n(llama-server absent du PATH — installe llama.cpp.)")),
            }
        },
        Some(Err(e)) => {
            push_line(&mut v, owned("✓ fichier de configuration : ").concat(config_path));
            let t = e.to_text();
            push_line(&mut v, owned("✗ lecture / parse YAML : ").concat(t.as_str()));
        },
        Some(Ok(cfg)) => {
            push_line(&mut v, owned("✓ fichier de configuration : ").concat(config_path));
            match &checks.llama {
                Ok(p) => push_line(&mut v, owned("✓ llama-server : ").concat(p.as_str())),
                Err(e) => {
                    let t = e.to_text();
                    push_line(&mut v, owned("✗ llama-server : ").concat(t.as_str()));
                },
            }
            push_llmlingua(&mut v, &cfg.prompt_compression, checks);
            push_profile(&mut v, config_path, cfg, profile, checks, fix);
        },
    }
    assert(views(v@) =~= doctor_lines(config_path@, *load, profile@, *checks, fix));
    v
}

} // verus!
