use oaas::cmd_docs::{
    devdocs_cli_pack, devdocs_docker_plan, devdocs_intro, devdocs_notes, docs_list_lines, docs_path, docs_pull_plan,
    refresh_action, DocsPullStep, Refresh, DEFAULT_DEVDOCS_IMAGE,
};
use oaas::docs_catalog::{doc_pack_dest, find_doc_pack, DocPack, DocsCatalogRoot};
use oaas::error::OaasError;
use oaas::paths::EnvVars;
use oaas::text::pad_to;

fn pack(id: &str, method: &str, url: &str) -> DocPack {
    DocPack {
        id: id.to_string(),
        title: "Titre".to_string(),
        method: method.to_string(),
        url: url.to_string(),
        branch: String::new(),
        note_fr: String::new(),
        docker_image: String::new(),
        docker_port: None,
    }
}

fn catalog() -> DocsCatalogRoot {
    let mut rust = pack("rust-book", "git", "https://github.com/rust-lang/book");
    rust.note_fr = "Le livre".to_string();
    DocsCatalogRoot {
        version: 2,
        packs: vec![rust, pack("mdn", "fetch", "https://example.org/"), pack("devdocs-stack", "devdocs", ""), pack("x", "ftp", "")],
    }
}

fn env() -> EnvVars {
    EnvVars { home: Some("/home/u".to_string()), xdg_config_home: None, xdg_data_home: None }
}

#[test]
fn padding_counts_characters() {
    assert_eq!(pad_to("ab", 5), "ab   ");
    assert_eq!(pad_to("abcdef", 3), "abcdef");
    assert_eq!(pad_to("é", 3), "é  ");
}

#[test]
fn list_lines() {
    let lines = docs_list_lines(&catalog());
    assert_eq!(lines[0], "Paquets documentation (v2) :\n");
    assert_eq!(lines[1], "  rust-book          [git] Titre");
    assert_eq!(lines[2], "                     Le livre");
    assert_eq!(lines[3], "  mdn                [fetch] Titre");
    assert_eq!(lines[lines.len() - 1], "Compléments cache   : oaas docs pull <id> [--docker]");
    assert_eq!(lines.len(), 8);
}

#[test]
fn pack_lookup_and_dest() {
    let c = catalog();
    assert_eq!(find_doc_pack(&c, "mdn").map(|p| p.method.clone()), Some("fetch".to_string()));
    assert!(find_doc_pack(&c, "nope").is_none());
    assert_eq!(doc_pack_dest(&env(), "mdn"), "/home/u/.local/share/oaas/docs/mdn");
    assert_eq!(docs_path(&c, &env(), "mdn").unwrap(), "/home/u/.local/share/oaas/docs/mdn");
    assert_eq!(docs_path(&c, &env(), "nope").unwrap_err(), OaasError::Config("doc « nope » inconnue".to_string()));
}

#[test]
fn pull_plans() {
    let c = catalog();
    match docs_pull_plan(&c, &env(), "rust-book", false, false).unwrap() {
        DocsPullStep::GitClone { dir, args } => {
            assert_eq!(dir, "/home/u/.local/share/oaas/docs/rust-book");
            assert_eq!(
                args,
                vec!["clone", "--depth", "1", "-b", "main", "https://github.com/rust-lang/book", "/home/u/.local/share/oaas/docs/rust-book"]
            );
        }
        other => panic!("unexpected {other:?}"),
    }
    match docs_pull_plan(&c, &env(), "mdn", false, false).unwrap() {
        DocsPullStep::Fetch { file, url, .. } => {
            assert_eq!(file, "/home/u/.local/share/oaas/docs/mdn/index.html");
            assert_eq!(url, "https://example.org/");
        }
        other => panic!("unexpected {other:?}"),
    }
    match docs_pull_plan(&c, &env(), "devdocs-stack", true, true).unwrap() {
        DocsPullStep::DevdocsNotes { file, docker, .. } => {
            assert_eq!(file, "/home/u/.local/share/oaas/docs/devdocs-stack/OAAS_DEVDOCS.txt");
            let d = docker.unwrap();
            assert_eq!(d.pre_args, vec!["rm", "-f", "oaas-devdocs"]);
            assert!(!d.done_if_pre_succeeds);
        }
        other => panic!("unexpected {other:?}"),
    }
    assert_eq!(
        docs_pull_plan(&c, &env(), "nope", false, false).unwrap_err(),
        OaasError::Config("doc « nope » inconnue du catalogue".to_string())
    );
    assert_eq!(
        docs_pull_plan(&c, &env(), "x", false, false).unwrap_err(),
        OaasError::Config("méthode « ftp » non supportée (git|fetch|devdocs)".to_string())
    );
    let empty = DocsCatalogRoot { version: 1, packs: vec![pack("f", "fetch", "")] };
    assert_eq!(
        docs_pull_plan(&empty, &env(), "f", false, false).unwrap_err(),
        OaasError::Config("URL vide pour ce paquet (vérifie docs_catalog.yaml)".to_string())
    );
}

#[test]
fn docker_plan_defaults() {
    let p = devdocs_cli_pack();
    assert_eq!(p.docker_image, DEFAULT_DEVDOCS_IMAGE);
    let d = devdocs_docker_plan(&p, false);
    assert_eq!(d.pre_args, vec!["container", "inspect", "oaas-devdocs"]);
    assert!(d.done_if_pre_succeeds);
    assert_eq!(
        d.run_args,
        vec!["run", "-d", "--name", "oaas-devdocs", "-p", "9292:9292", "ghcr.io/freecodecamp/devdocs:latest"]
    );
    let mut q = pack("d", "devdocs", "");
    q.docker_image = "img:1".to_string();
    q.docker_port = Some(8080);
    assert_eq!(devdocs_docker_plan(&q, false).run_args[5], "8080:8080");
    assert!(devdocs_notes(&q).contains("docker run -d --name oaas-devdocs -p 8080:8080 img:1\n  → http://localhost:8080\n"));
}

#[test]
fn intro_names_default_image() {
    let t = devdocs_intro();
    assert!(t.starts_with("DevDocs — https://github.com/freeCodeCamp/devdocs\n\n"));
    assert!(t.ends_with("Image par défaut : ghcr.io/freecodecamp/devdocs:latest\n"));
}

#[test]
fn refresh_decisions() {
    assert_eq!(refresh_action(false, false), Refresh::Create);
    assert_eq!(refresh_action(true, false), Refresh::Keep);
    assert_eq!(refresh_action(true, true), Refresh::Replace);
}
