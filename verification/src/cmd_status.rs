//! `oaas status`: the options, and the summary as a person reads it.
use vstd::prelude::*;

use crate::doctor::LLMLINGUA_REMEDIATION_FR;
use crate::project_status::WorkstationStatus;
use crate::serve_dashboard::{client_facing_host, client_host_of};
use crate::text::{owned, push_line, views};

verus! {

/// The options of `oaas status`.
#[derive(Debug, Clone, PartialEq, Eq)]
pub struct StatusCli {
    /// JSON output (scripts, monitoring).
    pub json: bool,
    /// Also run `cargo fmt --check`, `clippy` and `build` in the repository.
    pub ci: bool,
    /// The configuration file (default: the per-user one).
    pub config: Option<String>,
    /// The profile to check (`default` unless `OAAS_PROFILE` says otherwise).
    pub profile: String,
}

/// The mark of a check: `✓` when it passed, `✗` otherwise.
pub open spec fn mark(ok: bool) -> Seq<char> {
    if ok {
        "✓"@
    } else {
        "✗"@
    }
}

/// The mark of a check.
pub fn flag(ok: bool) -> (r: &'static str)
    ensures
        r@ == mark(ok),
{
    if ok {
        "✓"
    } else {
        "✗"
    }
}

/// The text of an optional note, `default` when there is none.
pub open spec fn note_or(o: Option<String>, default: Seq<char>) -> Seq<char> {
    match o {
        Some(s) => s@,
        None => default,
    }
}

fn note_text(o: &Option<String>, default: &str) -> (r: String)
    ensures
        r@ == note_or(*o, default@),
{
    match o {
        Some(s) => owned(s.as_str()),
        None => owned(default),
    }
}

/// Where the interface is, when the configuration gave a listen address;
/// otherwise what to do first.
pub open spec fn where_lines(r: WorkstationStatus) -> Seq<Seq<char>> {
    match r.oaas_bind {
        Some(b) => {
            let host = client_host_of(b@);
            seq![
                "  ▶ Où est l’interface ?"@,
                "     Tableau de bord (UI web) : http://"@ + host + "/oaas/"@,
                "     API OpenAI-like          : http://"@ + host + "/v1"@ + "   (Continue, clients /v1)"@,
                "     Écoute (server.bind)     : "@ + b@ + "   → lancer : make serve  ou  oaas serve"@,
                "     Rappel : pas d’éditeur intégré ici — l’UI configure Continue et le proxy ; tu codes dans Cursor/VS Code + extension Continue."@,
                ""@,
            ]
        },
        None => if !r.config_present {
            seq!["  ▶ Pas d’URL tant que la config n’existe pas →  make init-config  puis  make serve\n"@]
        } else if !r.config_parse_ok {
            seq!["  ▶ Corrige le YAML "@ + r.config_path@ + " pour afficher les URL (server.bind, etc.).\n"@]
        } else {
            seq![]
        },
    }
}

/// The configuration, profile, model, `llama-server` and LLMLingua lines.
pub open spec fn config_lines(r: WorkstationStatus) -> Seq<Seq<char>> {
    let model = match r.model_path {
        Some(m) => "  Fichier .gguf   : "@ + m@ + " "@ + mark(r.model_file_ok),
        None => "  Fichier .gguf   : — (profil introuvable)"@,
    };
    let llama = if r.llama_binary_ok {
        "  llama-server    : ✓ "@ + note_or(r.llama_binary_note, ""@)
    } else {
        "  llama-server    : ✗ "@ + note_or(r.llama_binary_note, "?"@)
    };
    let llmlingua = if r.llmlingua_enabled {
        let l = "  LLMLingua       : "@ + mark(r.llmlingua_ok) + " "@ + note_or(r.llmlingua_note, ""@);
        if r.llmlingua_ok {
            seq![l]
        } else {
            seq![l, "    → "@ + LLMLINGUA_REMEDIATION_FR@]
        }
    } else {
        seq!["  LLMLingua       : — (désactivé)"@]
    };
    seq![
        "  Config YAML     : "@ + r.config_path@ + " "@ + mark(r.config_present),
        "  Parse config    : "@ + mark(r.config_parse_ok),
        "  Profil « "@ + r.profile@ + " »  : "@ + mark(r.profile_found),
        model,
        llama,
    ] + llmlingua
}

/// The lines on the running server.
pub open spec fn server_lines(r: WorkstationStatus) -> Seq<Seq<char>> {
    match r.oaas_bind {
        Some(b) => {
            let tcp = if r.tcp_listen_open {
                "  Port OAAS (TCP) : ✓ (processus qui écoute — souvent OAAS après make serve)"@
            } else {
                "  Port OAAS (TCP) : ✗ (rien n’écoute — lance « oaas serve » ou « make serve »)"@
            };
            let http = if r.http_oaas_ui_ok {
                "  GET /oaas/      : ✓ (UI répond)"@
            } else {
                "  GET /oaas/      : ✗"@
            };
            let lines = seq!["  server.bind     : "@ + b@, tcp, http];
            match r.http_note {
                Some(n) => lines.push("    → "@ + n@),
                None => lines,
            }
        },
        None => seq!["  Serveur OAAS    : — (config absente ou invalide)"@],
    }
}

/// The lines on Continue and on the binary.
pub open spec fn continue_lines(r: WorkstationStatus) -> Seq<Seq<char>> {
    seq![
        "  Continue YAML   : "@ + r.continue_yaml@ + " "@ + mark(r.continue_yaml_exists),
        "  Continue JSON   : "@ + r.continue_json@ + " "@ + mark(r.continue_json_exists),
        "  Config Continue : préférence « "@ + r.continue_preferred@ + " »"@,
        if r.continue_has_oaas {
            "  Bloc OAAS       : ✓ (détecté)"@
        } else {
            "  Bloc OAAS       : ✗ (absent — UI /oaas/ → Continue)"@
        },
        "  Binaire courant : ["@ + r.build_kind@ + "] "@ + r.current_exe@,
        "  Dépôt (CI)      : "@ + r.cargo_manifest_dir@,
    ]
}

/// The outcomes of the repository checks, when all three were run.
pub open spec fn ci_lines(r: WorkstationStatus) -> Seq<Seq<char>> {
    match (r.cargo_fmt_ok, r.cargo_clippy_ok, r.cargo_build_ok) {
        (Some(f), Some(c), Some(b)) => seq![
            "  cargo fmt       : "@ + mark(f),
            "  cargo clippy    : "@ + mark(c),
            "  cargo build     : "@ + mark(b),
        ],
        _ => seq![],
    }
}

/// The next step, for the first thing missing (configuration, valid YAML,
/// model file); then the closing hint.
pub open spec fn next_lines(r: WorkstationStatus) -> Seq<Seq<char>> {
    let step = if !r.config_present {
        seq![
            "\n  ▶ Prochaine étape : crée la config OAAS avec   make init-config   ou   oaas init-config"@,
            "    Ensuite : chemin .gguf dans le YAML, ou make models-recommend puis make models-pull ID=<id> (ou oaas models … si installé)."@,
        ]
    } else if !r.config_parse_ok {
        seq![
            "\n  ▶ Le fichier "@ + r.config_path@
                + " existe mais le YAML est invalide — corrige-le (indentation, clés)."@,
        ]
    } else if !r.model_file_ok {
        seq![
            "\n  ▶ Fichier .gguf manquant ou chemin incorrect dans le YAML — télécharge un modèle ou mets à jour profiles.<profil>.model."@,
            "    Depuis le dépôt : make models-recommend puis make models-pull ID=<id-du-catalogue>."@,
        ]
    } else {
        seq![]
    };
    step.push("\nAstuce : make dev  (logs)  |  make doctor  (diagnostic détaillé)"@)
}

/// The summary as printed by `oaas status`, line by line.
pub open spec fn status_lines(r: WorkstationStatus) -> Seq<Seq<char>> {
    seq!["OAAS — statut poste de travail\n"@] + where_lines(r) + config_lines(r) + server_lines(r)
        + continue_lines(r) + ci_lines(r) + next_lines(r)
}

fn push_where(v: &mut Vec<String>, r: &WorkstationStatus)
    ensures
        views(final(v)@) == views(old(v)@) + where_lines(*r),
{
    let ghost v0 = views(v@);
    match &r.oaas_bind {
        Some(b) => {
            let host = client_facing_host(b.as_str());
            push_line(v, owned("  ▶ Où est l’interface ?"));
            push_line(v, owned("     Tableau de bord (UI web) : http://").concat(host.as_str()).concat("/oaas/"));
            push_line(
                v,
                owned("     API OpenAI-like          : http://").concat(host.as_str()).concat("/v1").concat(
                    "   (Continue, clients /v1)",
                ),
            );
            push_line(
                v,
                owned("     Écoute (server.bind)     : ").concat(b.as_str()).concat(
                    "   → lancer : make serve  ou  oaas serve",
                ),
            );
            push_line(
                v,
                owned(
                    "     Rappel : pas d’éditeur intégré ici — l’UI configure Continue et le proxy ; tu codes dans Cursor/VS Code + extension Continue.",
                ),
            );
            push_line(v, owned(""));
        },
        None => {
            if !r.config_present {
                push_line(
                    v,
                    owned("  ▶ Pas d’URL tant que la config n’existe pas →  make init-config  puis  make serve\n"),
                );
            } else if !r.config_parse_ok {
                push_line(
                    v,
                    owned("  ▶ Corrige le YAML ").concat(r.config_path.as_str()).concat(
                        " pour afficher les URL (server.bind, etc.).\n",
                    ),
                );
            }
        },
    }
    assert(views(v@) =~= v0 + where_lines(*r));
}

fn push_config(v: &mut Vec<String>, r: &WorkstationStatus)
    ensures
        views(final(v)@) == views(old(v)@) + config_lines(*r),
{
    let ghost v0 = views(v@);
    push_line(
        v,
        owned("  Config YAML     : ").concat(r.config_path.as_str()).concat(" ").concat(flag(r.config_present)),
    );
    push_line(v, owned("  Parse config    : ").concat(flag(r.config_parse_ok)));
    push_line(
        v,
        owned("  Profil « ").concat(r.profile.as_str()).concat(" »  : ").concat(flag(r.profile_found)),
    );
    match &r.model_path {
        Some(m) => push_line(
            v,
            owned("  Fichier .gguf   : ").concat(m.as_str()).concat(" ").concat(flag(r.model_file_ok)),
        ),
        None => push_line(v, owned("  Fichier .gguf   : — (profil introuvable)")),
    }
    if r.llama_binary_ok {
        let note = note_text(&r.llama_binary_note, "");
        push_line(v, owned("  llama-server    : ✓ ").concat(note.as_str()));
    } else {
        let note = note_text(&r.llama_binary_note, "?");
        push_line(v, owned("  llama-server    : ✗ ").concat(note.as_str()));
    }
    if r.llmlingua_enabled {
        let note = note_text(&r.llmlingua_note, "");
        push_line(
            v,
            owned("  LLMLingua       : ").concat(flag(r.llmlingua_ok)).concat(" ").concat(note.as_str()),
        );
        if !r.llmlingua_ok {
            push_line(v, owned("    → ").concat(LLMLINGUA_REMEDIATION_FR));
        }
    } else {
        push_line(v, owned("  LLMLingua       : — (désactivé)"));
    }
    assert(views(v@) =~= v0 + config_lines(*r));
}

fn push_server(v: &mut Vec<String>, r: &WorkstationStatus)
    ensures
        views(final(v)@) == views(old(v)@) + server_lines(*r),
{
    let ghost v0 = views(v@);
    match &r.oaas_bind {
        Some(b) => {
            push_line(v, owned("  server.bind     : ").concat(b.as_str()));
            if r.tcp_listen_open {
                push_line(v, owned("  Port OAAS (TCP) : ✓ (processus qui écoute — souvent OAAS après make serve)"));
            } else {
                push_line(v, owned("  Port OAAS (TCP) : ✗ (rien n’écoute — lance « oaas serve » ou « make serve »)"));
            }
            if r.http_oaas_ui_ok {
                push_line(v, owned("  GET /oaas/      : ✓ (UI répond)"));
            } else {
                push_line(v, owned("  GET /oaas/      : ✗"));
            }
            match &r.http_note {
                Some(n) => push_line(v, owned("    → ").concat(n.as_str())),
                None => {},
            }
        },
        None => push_line(v, owned("  Serveur OAAS    : — (config absente ou invalide)")),
    }
    assert(views(v@) =~= v0 + server_lines(*r));
}

fn push_continue(v: &mut Vec<String>, r: &WorkstationStatus)
    ensures
        views(final(v)@) == views(old(v)@) + continue_lines(*r),
{
    let ghost v0 = views(v@);
    push_line(
        v,
        owned("  Continue YAML   : ").concat(r.continue_yaml.as_str()).concat(" ").concat(
            flag(r.continue_yaml_exists),
        ),
    );
    push_line(
        v,
        owned("  Continue JSON   : ").concat(r.continue_json.as_str()).concat(" ").concat(
            flag(r.continue_json_exists),
        ),
    );
    push_line(v, owned("  Config Continue : préférence « ").concat(r.continue_preferred.as_str()).concat(" »"));
    if r.continue_has_oaas {
        push_line(v, owned("  Bloc OAAS       : ✓ (détecté)"));
    } else {
        push_line(v, owned("  Bloc OAAS       : ✗ (absent — UI /oaas/ → Continue)"));
    }
    push_line(
        v,
        owned("  Binaire courant : [").concat(r.build_kind.as_str()).concat("] ").concat(r.current_exe.as_str()),
    );
    push_line(v, owned("  Dépôt (CI)      : ").concat(r.cargo_manifest_dir.as_str()));
    assert(views(v@) =~= v0 + continue_lines(*r));
}

fn push_ci_and_next(v: &mut Vec<String>, r: &WorkstationStatus)
    ensures
        views(final(v)@) == views(old(v)@) + ci_lines(*r) + next_lines(*r),
{
    let ghost v0 = views(v@);
    match (&r.cargo_fmt_ok, &r.cargo_clippy_ok, &r.cargo_build_ok) {
        (Some(f), Some(c), Some(b)) => {
            push_line(v, owned("  cargo fmt       : ").concat(flag(*f)));
            push_line(v, owned("  cargo clippy    : ").concat(flag(*c)));
            push_line(v, owned("  cargo build     : ").concat(flag(*b)));
        },
        _ => {},
    }
    let ghost v1 = views(v@);
    assert(v1 =~= v0 + ci_lines(*r));
    if !r.config_present {
        push_line(
            v,
            owned("\n  ▶ Prochaine étape : crée la config OAAS avec   make init-config   ou   oaas init-config"),
        );
        push_line(
            v,
            owned(
                "    Ensuite : chemin .gguf dans le YAML, ou make models-recommend puis make models-pull ID=<id> (ou oaas models … si installé).",
            ),
        );
    } else if !r.config_parse_ok {
        push_line(
            v,
            owned("\n  ▶ Le fichier ").concat(r.config_path.as_str()).concat(
                " existe mais le YAML est invalide — corrige-le (indentation, clés).",
            ),
        );
    } else if !r.model_file_ok {
        push_line(
            v,
            owned(
                "\n  ▶ Fichier .gguf manquant ou chemin incorrect dans le YAML — télécharge un modèle ou mets à jour profiles.<profil>.model.",
            ),
        );
        push_line(v, owned("    Depuis le dépôt : make models-recommend puis make models-pull ID=<id-du-catalogue>."));
    }
    push_line(v, owned("\nAstuce : make dev  (logs)  |  make doctor  (diagnostic détaillé)"));
    assert(views(v@) =~= v1 + next_lines(*r));
}

/// The summary as `oaas status` prints it (without `--json`), one string
/// per printed line.
pub fn status_report(r: &WorkstationStatus) -> (lines: Vec<String>)
    ensures
        views(lines@) == status_lines(*r),
{
    let mut v: Vec<String> = Vec::new();
    push_line(&mut v, owned("OAAS — statut poste de travail\n"));
    push_where(&mut v, r);
    push_config(&mut v, r);
    push_server(&mut v, r);
    push_continue(&mut v, r);
    push_ci_and_next(&mut v, r);
    assert(views(v@) =~= status_lines(*r));
    v
}

} // verus!
