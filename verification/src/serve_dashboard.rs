//! What the dashboard (`/oaas/`, `/oaas/status.json`) shows: the client URL
//! of the proxy, the profiles, the recommended models.
use vstd::prelude::*;

use crate::config::{ConfigFile, Profiles};
use crate::models_catalog::{pick_models, picks_of, recommend_picks, recommend_rows, ModelsCatalogRoot, RecommendPick};
use crate::text::{concat2, concat3, has_prefix, owned, str_eq, strip_prefix};

verus! {

/// The address clients use for a listen address: a wildcard address
/// (`0.0.0.0:port`, `[::]:port`) becomes `127.0.0.1:port`; any other is kept.
pub open spec fn client_host_of(bind: Seq<char>) -> Seq<char> {
    if has_prefix(bind, "0.0.0.0:"@) {
        "127.0.0.1:"@ + bind.skip("0.0.0.0:"@.len() as int)
    } else if has_prefix(bind, "[::]:"@) {
        "127.0.0.1:"@ + bind.skip("[::]:"@.len() as int)
    } else {
        bind
    }
}

/// The address clients use for the listen address `bind`.
pub fn client_facing_host(bind: &str) -> (h: String)
    ensures
        h@ == client_host_of(bind@),
{
    match strip_prefix(bind, "0.0.0.0:") {
        Some(port) => concat2("127.0.0.1:", port.as_str()),
        None => match strip_prefix(bind, "[::]:") {
            Some(port) => concat2("127.0.0.1:", port.as_str()),
            None => owned(bind),
        },
    }
}

/// One profile as the dashboard lists it.
#[derive(Debug, Clone, PartialEq, Eq)]
pub struct OaasProfileRow {
    pub name: String,
    pub model: String,
    pub internal_port: u16,
    /// The profile the server runs.
    pub active: bool,
}

/// The data of the dashboard and of `GET /oaas/status.json`.
#[derive(Debug, Clone, PartialEq, Eq)]
pub struct OaasStatus {
    pub version: String,
    pub config_path: String,
    pub server_bind: String,
    /// Host and port for clients (browser, Continue).
    pub client_host: String,
    pub api_base_url: String,
    pub oaas_ui_url: String,
    pub active_profile: String,
    pub profiles: Vec<OaasProfileRow>,
    pub recommend_picks: Vec<RecommendPick>,
    pub cli_cheatsheet_fr: Vec<String>,
    pub rag_roadmap_fr: String,
}

/// The commands the dashboard lists.
pub open spec fn cheatsheet() -> Seq<Seq<char>> {
    seq![
        "oaas status"@,
        "oaas status --ci"@,
        "oaas models recommend"@,
        "oaas models list"@,
        "oaas models pull <id> --patch-config"@,
        "oaas doctor"@,
        "OAAS_PROFILE=autre_profil oaas serve"@,
        "oaas docs list"@,
    ]
}

pub open spec fn rag_roadmap() -> Seq<char> {
    "Feuille de route : index local (embeddings) sur le cache doc + requêtes RAG côté OAAS — pas encore implémenté."@
}

/// Row `i` of the dashboard is profile `i` of the table (name order),
/// marked active when its name is `active`.
pub open spec fn row_matches(row: OaasProfileRow, t: Profiles, i: int, active: Seq<char>) -> bool {
    &&& row.name@ == t@[i].0@
    &&& row.model@ == t@[i].1.model@
    &&& row.internal_port == t@[i].1.internal_port
    &&& row.active == (t@[i].0@ == active)
}

/// The dashboard rows of the profiles, in name order.
pub fn profile_rows(t: &Profiles, active: &str) -> (v: Vec<OaasProfileRow>)
    ensures
        v@.len() == t@.len(),
        forall|i: int| 0 <= i < v@.len() ==> row_matches(#[trigger] v@[i], *t, i, active@),
{
    let mut v: Vec<OaasProfileRow> = Vec::new();
    let n = t.len();
    let mut i: usize = 0;
    while i < n
        invariant
            n == t@.len(),
            0 <= i <= n,
            v@.len() == i,
            forall|j: int| 0 <= j < i ==> row_matches(#[trigger] v@[j], *t, j, active@),
        decreases n - i,
    {
        let e = t.entry(i);
        v.push(
            OaasProfileRow {
                name: e.0.clone(),
                model: e.1.model.clone(),
                internal_port: e.1.internal_port,
                active: str_eq(e.0.as_str(), active),
            },
        );
        i += 1;
    }
    v
}

fn cheatsheet_lines() -> (v: Vec<String>)
    ensures
        v@.map_values(|s: String| s@) == cheatsheet(),
{
    let mut v: Vec<String> = Vec::new();
    v.push(owned("oaas status"));
    v.push(owned("oaas status --ci"));
    v.push(owned("oaas models recommend"));
    v.push(owned("oaas models list"));
    v.push(owned("oaas models pull <id> --patch-config"));
    v.push(owned("oaas doctor"));
    v.push(owned("OAAS_PROFILE=autre_profil oaas serve"));
    v.push(owned("oaas docs list"));
    assert(v@.map_values(|s: String| s@) =~= cheatsheet());
    v
}

/// The dashboard data for the configuration `cfg` read from `config_path`,
/// the running profile and the models catalogue; `version` is the program's.
pub fn build_oaas_status(
    cfg: &ConfigFile,
    config_path: &str,
    profile_name: &str,
    catalog: &ModelsCatalogRoot,
    version: &str,
) -> (s: OaasStatus)
    ensures
        s.version@ == version@,
        s.config_path@ == config_path@,
        s.server_bind@ == cfg.server.bind@,
        s.client_host@ == client_host_of(cfg.server.bind@),
        s.api_base_url@ == "http://"@ + client_host_of(cfg.server.bind@) + "/v1"@,
        s.oaas_ui_url@ == "http://"@ + client_host_of(cfg.server.bind@) + "/oaas/"@,
        s.active_profile@ == profile_name@,
        s.profiles@.len() == cfg.profiles@.len(),
        forall|i: int| 0 <= i < s.profiles@.len() ==> row_matches(#[trigger] s.profiles@[i], cfg.profiles, i, profile_name@),
        pick_models(s.recommend_picks@) == picks_of(recommend_rows(), catalog.models@),
        s.cli_cheatsheet_fr@.map_values(|l: String| l@) == cheatsheet(),
        s.rag_roadmap_fr@ == rag_roadmap(),
{
    let host = client_facing_host(cfg.server.bind.as_str());
    let api_base_url = concat3("http://", host.as_str(), "/v1");
    let oaas_ui_url = concat3("http://", host.as_str(), "/oaas/");
    OaasStatus {
        version: owned(version),
        config_path: owned(config_path),
        server_bind: cfg.server.bind.clone(),
        client_host: host,
        api_base_url,
        oaas_ui_url,
        active_profile: owned(profile_name),
        profiles: profile_rows(&cfg.profiles, profile_name),
        recommend_picks: recommend_picks(catalog),
        cli_cheatsheet_fr: cheatsheet_lines(),
        rag_roadmap_fr: owned(
            "Feuille de route : index local (embeddings) sur le cache doc + requêtes RAG côté OAAS — pas encore implémenté.",
        ),
    }
}

} // verus!
