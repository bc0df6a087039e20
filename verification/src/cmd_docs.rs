//! `oaas docs`: the listing of the documentation catalogue, and what
//! `pull`, `path` and `devdocs` do with a pack (which directory, which
//! command, which file).
use vstd::prelude::*;

use crate::docs_catalog::{doc_pack_dest, find_doc_pack, first_pack_with_id, DocPack, DocsCatalogRoot};
use crate::error::{ErrorModel, OaasError};
use crate::models_catalog::data_dir_of;
use crate::paths::{join, path_join, EnvVars};
use crate::runtime::which_path;
use crate::text::{concat3, decimal, fmt_u64, owned, pad_right, pad_to, push_line, str_eq, to_chars, views};

verus! {

/// The DevDocs image run when a pack names none.
pub const DEFAULT_DEVDOCS_IMAGE: &'static str = "ghcr.io/freecodecamp/devdocs:latest";

/// The subcommands of `oaas docs`.
#[derive(Debug, Clone, PartialEq, Eq)]
pub enum DocsCommand {
    /// List the documentation packs.
    List,
    /// Download or clone a pack into the cache.
    Pull { id: String, force: bool, docker: bool },
    /// The cache directory of a pack.
    Path { id: String },
    /// Help on DevDocs; with `docker`, run its container.
    Devdocs { docker: bool },
}

/// The listing lines of one pack.
pub open spec fn pack_lines(p: DocPack) -> Seq<Seq<char>> {
    let first = "  "@ + pad_right(p.id@, 18) + " ["@ + p.method@ + "] "@ + p.title@;
    if p.note_fr@.len() == 0 {
        seq![first]
    } else {
        seq![first, "                     "@ + p.note_fr@]
    }
}

/// The listing lines of packs `s`, in order.
pub open spec fn packs_lines(s: Seq<DocPack>) -> Seq<Seq<char>>
    decreases s.len(),
{
    if s.len() == 0 {
        seq![]
    } else {
        packs_lines(s.drop_last()) + pack_lines(s.last())
    }
}

/// What `oaas docs list` prints, line by line.
pub open spec fn docs_list_lines_of(c: DocsCatalogRoot) -> Seq<Seq<char>> {
    seq!["Paquets documentation (v"@ + decimal(c.version as nat) + ") :\n"@] + packs_lines(c.packs@) + seq![
        "\nDevDocs (référence) : oaas docs devdocs"@,
        "Compléments cache   : oaas docs pull <id> [--docker]"@,
    ]
}

/// What `oaas docs list` prints, one string per printed line.
pub fn docs_list_lines(c: &DocsCatalogRoot) -> (lines: Vec<String>)
    ensures
        views(lines@) == docs_list_lines_of(*c),
{
    let mut v: Vec<String> = Vec::new();
    let version = fmt_u64(c.version as u64);
    push_line(&mut v, concat3("Paquets documentation (v", version.as_str(), ") :\n"));
    let ghost head = views(v@);
    let mut i: usize = 0;
    assert(c.packs@.subrange(0, 0) =~= Seq::<DocPack>::empty());
    assert(views(v@) =~= head + packs_lines(c.packs@.subrange(0, 0)));
    while i < c.packs.len()
        invariant
            0 <= i <= c.packs.len(),
            views(v@) == head + packs_lines(c.packs@.subrange(0, i as int)),
        decreases c.packs.len() - i,
    {
        let p = &c.packs[i];
        let ghost before = views(v@);
        let id = pad_to(p.id.as_str(), 18);
        push_line(&mut v, owned("  ").concat(id.as_str()).concat(" [").concat(p.method.as_str()).concat("] ").concat(p.title.as_str()));
        if to_chars(p.note_fr.as_str()).len() > 0 {
            push_line(&mut v, owned("                     ").concat(p.note_fr.as_str()));
        }
        assert(c.packs@.subrange(0, i + 1).drop_last() =~= c.packs@.subrange(0, i as int));
        assert(views(v@) =~= before + pack_lines(*p));
        i += 1;
    }
    assert(c.packs@.subrange(0, i as int) =~= c.packs@);
    push_line(&mut v, owned("\nDevDocs (référence) : oaas docs devdocs"));
    push_line(&mut v, owned("Compléments cache   : oaas docs pull <id> [--docker]"));
    assert(views(v@) =~= docs_list_lines_of(*c));
    v
}

/// The DevDocs image of a pack: its own, else the default one.
pub open spec fn image_of(p: DocPack) -> Seq<char> {
    if p.docker_image@.len() == 0 {
        DEFAULT_DEVDOCS_IMAGE@
    } else {
        p.docker_image@
    }
}

/// The DevDocs port of a pack: its own, else 9292.
pub open spec fn port_of(p: DocPack) -> u16 {
    match p.docker_port {
        Some(port) => port,
        None => 9292,
    }
}

/// How the DevDocs container is started.
#[derive(Debug, Clone, PartialEq, Eq)]
pub struct DockerPlan {
    /// The `docker` arguments run first: `rm -f oaas-devdocs` when forced,
    /// else `container inspect oaas-devdocs`.
    pub pre_args: Vec<String>,
    /// When the first command succeeds, stop there (the container exists).
    pub done_if_pre_succeeds: bool,
    /// The `docker` arguments that start the container.
    pub run_args: Vec<String>,
}

/// The arguments of `docker run` for `image` published on `port`.
pub open spec fn docker_run_args(image: Seq<char>, port: u16) -> Seq<Seq<char>> {
    seq!["run"@, "-d"@, "--name"@, "oaas-devdocs"@, "-p"@, decimal(port as nat) + ":"@ + decimal(port as nat), image]
}

/// How the DevDocs container of pack `p` is started (`force`: replace a
/// container already there).
pub fn devdocs_docker_plan(p: &DocPack, force: bool) -> (d: DockerPlan)
    ensures
        views(d.pre_args@) == (if force {
            seq!["rm"@, "-f"@, "oaas-devdocs"@]
        } else {
            seq!["container"@, "inspect"@, "oaas-devdocs"@]
        }),
        d.done_if_pre_succeeds == !force,
        views(d.run_args@) == docker_run_args(image_of(*p), port_of(*p)),
{
    let image = if to_chars(p.docker_image.as_str()).len() == 0 {
        owned(DEFAULT_DEVDOCS_IMAGE)
    } else {
        owned(p.docker_image.as_str())
    };
    let port: u16 = match p.docker_port {
        Some(x) => x,
        None => 9292,
    };
    let mut pre_args: Vec<String> = Vec::new();
    if force {
        push_line(&mut pre_args, owned("rm"));
        push_line(&mut pre_args, owned("-f"));
    } else {
        push_line(&mut pre_args, owned("container"));
        push_line(&mut pre_args, owned("inspect"));
    }
    push_line(&mut pre_args, owned("oaas-devdocs"));
    let ps = fmt_u64(port as u64);
    let mut run_args: Vec<String> = Vec::new();
    push_line(&mut run_args, owned("run"));
    push_line(&mut run_args, owned("-d"));
    push_line(&mut run_args, owned("--name"));
    push_line(&mut run_args, owned("oaas-devdocs"));
    push_line(&mut run_args, owned("-p"));
    push_line(&mut run_args, concat3(ps.as_str(), ":", ps.as_str()));
    push_line(&mut run_args, image);
    assert(views(pre_args@) =~= (if force {
        seq!["rm"@, "-f"@, "oaas-devdocs"@]
    } else {
        seq!["container"@, "inspect"@, "oaas-devdocs"@]
    }));
    assert(views(run_args@) =~= docker_run_args(image_of(*p), port_of(*p)));
    DockerPlan { pre_args, done_if_pre_succeeds: !force, run_args }
}

/// The text of the DevDocs notes written into the cache, for `image`
/// published on `port`.
pub open spec fn devdocs_notes_text(image: Seq<char>, port: u16) -> Seq<char> {
    let ps = decimal(port as nat);
    "DevDocs (freeCodeCamp) — https://github.com/freeCodeCamp/devdocs\n\nOAAS n’embarque pas le scraper Ruby : on s’aligne sur l’outil amont.\n\nDocker :\n  docker run -d --name oaas-devdocs -p "@
        + ps + ":"@ + ps + " "@ + image + "\n  → http://localhost:"@ + ps
        + "\n\nMise à jour des docs dans le conteneur : suivre la doc DevDocs (thor docs:download --installed en install manuelle).\n\ndevdocs.io (hébergé) : https://devdocs.io\n"@
}

/// The DevDocs notes of pack `p`.
pub fn devdocs_notes(p: &DocPack) -> (s: String)
    ensures
        s@ == devdocs_notes_text(image_of(*p), port_of(*p)),
{
    let image = if to_chars(p.docker_image.as_str()).len() == 0 {
        owned(DEFAULT_DEVDOCS_IMAGE)
    } else {
        owned(p.docker_image.as_str())
    };
    let port: u16 = match p.docker_port {
        Some(x) => x,
        None => 9292,
    };
    let ps = fmt_u64(port as u64);
    owned(
        "DevDocs (freeCodeCamp) — https://github.com/freeCodeCamp/devdocs\n\nOAAS n’embarque pas le scraper Ruby : on s’aligne sur l’outil amont.\n\nDocker :\n  docker run -d --name oaas-devdocs -p ",
    ).concat(ps.as_str()).concat(":").concat(ps.as_str()).concat(" ").concat(image.as_str()).concat(
        "\n  → http://localhost:",
    ).concat(ps.as_str()).concat(
        "\n\nMise à jour des docs dans le conteneur : suivre la doc DevDocs (thor docs:download --installed en install manuelle).\n\ndevdocs.io (hébergé) : https://devdocs.io\n",
    )
}

/// What `oaas docs devdocs` prints.
pub open spec fn devdocs_intro_text() -> Seq<char> {
    "DevDocs — https://github.com/freeCodeCamp/devdocs\n\nMême idée que devdocs.io : plusieurs documentations officielles, recherche rapide, offline.\n\n• Hébergé (zéro install) : https://devdocs.io\n• Docker local (recommandé par upstream) :\ndocker run -d --name oaas-devdocs -p 9292:9292 "@
        + DEFAULT_DEVDOCS_IMAGE@
        + "\n→ http://localhost:9292\n• Installation manuelle (Ruby + thor) : voir le README du dépôt (bundle exec thor docs:download …).\n\nOAAS : « oaas docs pull devdocs-stack » écrit un rappel dans le cache ; « --docker » tente le run.\nImage par défaut : "@
        + DEFAULT_DEVDOCS_IMAGE@ + "\n"@
}

/// What `oaas docs devdocs` prints.
pub fn devdocs_intro() -> (s: String)
    ensures
        s@ == devdocs_intro_text(),
{
    owned(
        "DevDocs — https://github.com/freeCodeCamp/devdocs\n\nMême idée que devdocs.io : plusieurs documentations officielles, recherche rapide, offline.\n\n• Hébergé (zéro install) : https://devdocs.io\n• Docker local (recommandé par upstream) :\ndocker run -d --name oaas-devdocs -p 9292:9292 ",
    ).concat(DEFAULT_DEVDOCS_IMAGE).concat(
        "\n→ http://localhost:9292\n• Installation manuelle (Ruby + thor) : voir le README du dépôt (bundle exec thor docs:download …).\n\nOAAS : « oaas docs pull devdocs-stack » écrit un rappel dans le cache ; « --docker » tente le run.\nImage par défaut : ",
    ).concat(DEFAULT_DEVDOCS_IMAGE).concat("\n")
}

/// The pack `oaas docs devdocs --docker` starts: the default image on port 9292.
pub fn devdocs_cli_pack() -> (p: DocPack)
    ensures
        p.id@ == "devdocs-cli"@,
        p.title@.len() == 0,
        p.method@ == "devdocs"@,
        p.url@.len() == 0,
        p.branch@.len() == 0,
        p.note_fr@.len() == 0,
        p.docker_image@ == DEFAULT_DEVDOCS_IMAGE@,
        p.docker_port == Some(9292u16),
{
    DocPack {
        id: owned("devdocs-cli"),
        title: String::new(),
        method: owned("devdocs"),
        url: String::new(),
        branch: String::new(),
        note_fr: String::new(),
        docker_image: owned(DEFAULT_DEVDOCS_IMAGE),
        docker_port: Some(9292),
    }
}

/// What `oaas docs pull` does with a known pack.
#[derive(Debug, Clone, PartialEq, Eq)]
pub enum DocsPullStep {
    /// Write the DevDocs notes `body` to `file` (in directory `dir`); then,
    /// when asked, start the container.
    DevdocsNotes { dir: String, file: String, body: String, docker: Option<DockerPlan> },
    /// Clone into `dir` with `git` and `args`.
    GitClone { dir: String, args: Vec<String> },
    /// Download `url` to `file` (in directory `dir`).
    Fetch { dir: String, file: String, url: String },
}

/// The cache directory of pack `id`.
pub open spec fn pack_dir(env: EnvVars, id: Seq<char>) -> Seq<char> {
    path_join(path_join(data_dir_of(env), "docs"@), id)
}

/// The `git` arguments that clone `p` into `dir`: depth 1, its branch
/// (`main` when it names none).
pub open spec fn clone_args(p: DocPack, dir: Seq<char>) -> Seq<Seq<char>> {
    let branch = if p.branch@.len() == 0 {
        "main"@
    } else {
        p.branch@
    };
    seq!["clone"@, "--depth"@, "1"@, "-b"@, branch, p.url@, dir]
}

/// The error for a pack id the catalogue does not know, in `oaas docs pull`.
pub open spec fn unknown_pack_msg(id: Seq<char>) -> Seq<char> {
    "doc « "@ + id + " » inconnue du catalogue"@
}

/// The error for a pack whose method is none of `git`, `fetch`, `devdocs`.
pub open spec fn bad_method_msg(m: Seq<char>) -> Seq<char> {
    "méthode « "@ + m + " » non supportée (git|fetch|devdocs)"@
}

/// The error for a `fetch` pack without URL.
pub open spec fn empty_url_msg() -> Seq<char> {
    "URL vide pour ce paquet (vérifie docs_catalog.yaml)"@
}

/// What `oaas docs pull <id>` does (`docker`: also start the DevDocs
/// container; `force`: replace what is there).
pub fn docs_pull_plan(catalog: &DocsCatalogRoot, env: &EnvVars, id: &str, docker: bool, force: bool) -> (r: Result<
    DocsPullStep,
    OaasError,
>)
    ensures
        match first_pack_with_id(catalog.packs@, id@) {
            None => r matches Err(e) && e.model() == ErrorModel::Config(unknown_pack_msg(id@)),
            Some(i) => {
                let p = catalog.packs@[i];
                let dir = pack_dir(*env, id@);
                if p.method@ == "devdocs"@ {
                    r matches Ok(DocsPullStep::DevdocsNotes { dir: d, file, body, docker: dk }) && d@ == dir
                        && file@ == path_join(dir, "OAAS_DEVDOCS.txt"@) && body@ == devdocs_notes_text(
                        image_of(p),
                        port_of(p),
                    ) && (docker <==> dk is Some) && (dk matches Some(plan) ==> views(plan.run_args@)
                        == docker_run_args(image_of(p), port_of(p)) && plan.done_if_pre_succeeds == !force)
                } else if p.method@ == "git"@ {
                    r matches Ok(DocsPullStep::GitClone { dir: d, args }) && d@ == dir && views(args@) == clone_args(
                        p,
                        dir,
                    )
                } else if p.method@ == "fetch"@ {
                    if p.url@.len() == 0 {
                        r matches Err(e) && e.model() == ErrorModel::Config(empty_url_msg())
                    } else {
                        r matches Ok(DocsPullStep::Fetch { dir: d, file, url }) && d@ == dir && file@ == path_join(
                            dir,
                            "index.html"@,
                        ) && url@ == p.url@
                    }
                } else {
                    r matches Err(e) && e.model() == ErrorModel::Config(bad_method_msg(p.method@))
                }
            },
        },
{
    let p = match find_doc_pack(catalog, id) {
        Some(p) => p,
        None => {
            return Err(OaasError::Config(owned("doc « ").concat(id).concat(" » inconnue du catalogue")));
        },
    };
    let dir = doc_pack_dest(env, id);
    if str_eq(p.method.as_str(), "devdocs") {
        let file = join(dir.as_str(), "OAAS_DEVDOCS.txt");
        let body = devdocs_notes(p);
        let dk = if docker {
            Some(devdocs_docker_plan(p, force))
        } else {
            None
        };
        Ok(DocsPullStep::DevdocsNotes { dir, file, body, docker: dk })
    } else if str_eq(p.method.as_str(), "git") {
        let branch = if to_chars(p.branch.as_str()).len() == 0 {
            owned("main")
        } else {
            owned(p.branch.as_str())
        };
        let mut args: Vec<String> = Vec::new();
        push_line(&mut args, owned("clone"));
        push_line(&mut args, owned("--depth"));
        push_line(&mut args, owned("1"));
        push_line(&mut args, owned("-b"));
        push_line(&mut args, branch);
        push_line(&mut args, owned(p.url.as_str()));
        push_line(&mut args, owned(dir.as_str()));
        assert(views(args@) =~= clone_args(*p, dir@));
        Ok(DocsPullStep::GitClone { dir, args })
    } else if str_eq(p.method.as_str(), "fetch") {
        if to_chars(p.url.as_str()).len() == 0 {
            return Err(OaasError::config("URL vide pour ce paquet (vérifie docs_catalog.yaml)"));
        }
        let file = join(dir.as_str(), "index.html");
        Ok(DocsPullStep::Fetch { dir, file, url: owned(p.url.as_str()) })
    } else {
        Err(OaasError::Config(owned("méthode « ").concat(p.method.as_str()).concat(" » non supportée (git|fetch|devdocs)")))
    }
}

/// What to do with a target of `oaas docs pull` that may already be there.
#[derive(Debug, Clone, PartialEq, Eq)]
pub enum Refresh {
    /// It is there and nothing forces a new copy: keep it.
    Keep,
    /// It is there and `--force` was given: remove it, then make it again.
    Replace,
    /// It is not there yet: make it.
    Create,
}

/// What to do with a target (`exists`: it is there; `force`: `--force`).
pub fn refresh_action(exists: bool, force: bool) -> (a: Refresh)
    ensures
        a == (if !exists {
            Refresh::Create
        } else if force {
            Refresh::Replace
        } else {
            Refresh::Keep
        }),
{
    if !exists {
        Refresh::Create
    } else if force {
        Refresh::Replace
    } else {
        Refresh::Keep
    }
}

/// The error for an unknown pack in `oaas docs path`.
pub open spec fn unknown_path_msg(id: Seq<char>) -> Seq<char> {
    "doc « "@ + id + " » inconnue"@
}

/// What `oaas docs path <id>` prints: the cache directory of a known pack.
pub fn docs_path(catalog: &DocsCatalogRoot, env: &EnvVars, id: &str) -> (r: Result<String, OaasError>)
    ensures
        match first_pack_with_id(catalog.packs@, id@) {
            None => r matches Err(e) && e.model() == ErrorModel::Config(unknown_path_msg(id@)),
            Some(_) => r matches Ok(d) && d@ == pack_dir(*env, id@),
        },
{
    match find_doc_pack(catalog, id) {
        None => Err(OaasError::Config(owned("doc « ").concat(id).concat(" » inconnue"))),
        Some(_) => Ok(doc_pack_dest(env, id)),
    }
}

/// The error when `docker` is not on `PATH`.
pub open spec fn docker_missing_msg() -> Seq<char> {
    "docker introuvable dans le PATH — installe Docker ou lance les commandes du fichier OAAS_DEVDOCS.txt à la main."@
}

/// The DevDocs container is only started when `docker` is on `PATH`; whether
/// it is depends on the machine.
pub fn docker_check() -> (r: Result<(), OaasError>)
    ensures
        r is Ok || (r matches Err(e) && e.model() == ErrorModel::Backend(docker_missing_msg())),
{
    match which_path("docker") {
        Some(_) => Ok(()),
        None => Err(
            OaasError::backend(
                "docker introuvable dans le PATH — installe Docker ou lance les commandes du fichier OAAS_DEVDOCS.txt à la main.",
            ),
        ),
    }
}

} // verus!
