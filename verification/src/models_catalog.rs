//! The GGUF models catalogue: lookup by id, download URL, and the picks the
//! CLI and the web UI recommend.
use vstd::prelude::*;

use crate::paths::{join, or_empty, path_join, path_parent, value_or_empty, EnvVars};
use crate::text::{concat2, concat3, owned, str_eq};

verus! {

/// The catalogue file.
#[derive(Debug, Clone, PartialEq, Eq)]
pub struct ModelsCatalogRoot {
    pub version: u32,
    pub defaults: CatalogDefaults,
    pub models: Vec<CatalogModel>,
}

/// `defaults:` section of the catalogue.
#[derive(Debug, Clone, PartialEq, Eq)]
pub struct CatalogDefaults {
    pub balanced_usage: String,
}

impl Default for CatalogDefaults {
    /// An empty `balanced_usage` (used when the whole section is missing).
    fn default() -> (d: Self)
        ensures
            d.balanced_usage@ == Seq::<char>::empty(),
    {
        CatalogDefaults { balanced_usage: String::new() }
    }
}

/// `balanced_usage` when the section exists without it.
pub fn default_balanced_usage() -> (s: String)
    ensures
        s@ == "dev"@,
{
    owned("dev")
}

/// One model of the catalogue.
#[derive(Debug, Clone, PartialEq, Eq)]
pub struct CatalogModel {
    pub id: String,
    pub label: String,
    pub family: String,
    pub kind: String,
    /// Hugging Face repository (`owner/name`).
    pub hf_repo: String,
    /// GGUF file name in that repository.
    pub filename: String,
    pub approx_size_mb: u32,
    pub usage: Vec<String>,
    pub note_fr: String,
}

impl CatalogModel {
    /// `https://huggingface.co/<repo>/resolve/main/<file>`.
    pub fn huggingface_download_url(&self) -> (u: String)
        ensures
            u@ == "https://huggingface.co/"@ + self.hf_repo@ + "/resolve/main/"@ + self.filename@,
    {
        let a = concat3("https://huggingface.co/", self.hf_repo.as_str(), "/resolve/main/");
        concat2(a.as_str(), self.filename.as_str())
    }
}

/// Position of the first model of `s` with id `id`.
pub open spec fn first_with_id(s: Seq<CatalogModel>, id: Seq<char>) -> Option<int> {
    if exists|i: int| 0 <= i < s.len() && s[i].id@ == id {
        Some(
            choose|i: int|
                0 <= i < s.len() && s[i].id@ == id && forall|j: int| 0 <= j < i ==> s[j].id@ != id,
        )
    } else {
        None
    }
}

/// A model with id `id` at `w` means there is a first one, at or before `w`.
proof fn lemma_least_model(s: Seq<CatalogModel>, id: Seq<char>, w: int)
    requires
        0 <= w < s.len(),
        s[w].id@ == id,
    ensures
        exists|i: int| 0 <= i <= w && s[i].id@ == id && forall|j: int| 0 <= j < i ==> s[j].id@ != id,
    decreases w,
{
    if exists|j: int| 0 <= j < w && s[j].id@ == id {
        let j = choose|j: int| 0 <= j < w && s[j].id@ == id;
        lemma_least_model(s, id, j);
    } else {
        assert(0 <= w <= w && s[w].id@ == id && forall|j: int| 0 <= j < w ==> s[j].id@ != id);
    }
}

/// [`first_with_id`] gives the position of the first model with id `id`: it is in
/// range, holds that id, and no model before it does; it gives `None`
/// exactly when no model has that id.
pub proof fn lemma_first_with_id(s: Seq<CatalogModel>, id: Seq<char>)
    ensures
        match first_with_id(s, id) {
            Some(i) => 0 <= i < s.len() && s[i].id@ == id && forall|j: int| 0 <= j < i ==> s[j].id@ != id,
            None => forall|i: int| 0 <= i < s.len() ==> s[i].id@ != id,
        },
{
    if exists|i: int| 0 <= i < s.len() && s[i].id@ == id {
        let w = choose|i: int| 0 <= i < s.len() && s[i].id@ == id;
        lemma_least_model(s, id, w);
    }
}

/// Position of the first model with id `id`.
fn position_of_model(models: &Vec<CatalogModel>, id: &str) -> (r: Option<usize>)
    ensures
        r matches Some(i) ==> i < models@.len() && first_with_id(models@, id@) == Some(i as int),
        match first_with_id(models@, id@) {
            Some(i) => r == Some(i as usize),
            None => r is None,
        },
{
    let mut i: usize = 0;
    while i < models.len()
        invariant
            0 <= i <= models.len(),
            forall|j: int| 0 <= j < i ==> models@[j].id@ != id@,
        decreases models.len() - i,
    {
        if str_eq(models[i].id.as_str(), id) {
            proof {
                let s = models@;
                assert(0 <= i < s.len() && s[i as int].id@ == id@ && forall|j: int|
                    0 <= j < i ==> s[j].id@ != id@);
                let k = choose|k: int|
                    0 <= k < s.len() && s[k].id@ == id@ && forall|j: int| 0 <= j < k ==> s[j].id@ != id@;
                if k < i {
                    assert(s[k].id@ != id@);
                } else if k > i {
                    assert(s[i as int].id@ != id@);
                }
            }
            return Some(i);
        }
        i += 1;
    }
    None
}

/// The first model of the catalogue with id `id`.
pub fn find_model<'a>(root: &'a ModelsCatalogRoot, id: &str) -> (r: Option<&'a CatalogModel>)
    ensures
        match first_with_id(root.models@, id@) {
            Some(i) => r == Some(&root.models@[i]),
            None => r is None,
        },
{
    match position_of_model(&root.models, id) {
        Some(i) => Some(&root.models[i]),
        None => None,
    }
}

/// A recommendation shown by `oaas models recommend` and the web UI.
#[derive(Debug, Clone, PartialEq, Eq)]
pub struct RecommendPick {
    pub key: String,
    pub description_fr: String,
    pub model_id: String,
    pub label: String,
}

impl RecommendPick {
    pub open spec fn model(self) -> (Seq<char>, Seq<char>, Seq<char>, Seq<char>) {
        (self.key@, self.description_fr@, self.model_id@, self.label@)
    }
}

/// The recommendation rows: key, description, catalogue id.
pub open spec fn recommend_rows() -> Seq<(Seq<char>, Seq<char>, Seq<char>)> {
    seq![
        ("polyvalent"@, "Polyvalent / laptop"@, "qwen3.5-4b-q4km"@),
        ("code"@, "Code / outillage"@, "qwen2.5-coder-7b-q4km"@),
        ("doc"@, "Doc / spec"@, "qwen2.5-7b-instruct-q4km"@),
        ("puissant"@, "Station puissante"@, "qwen3.5-35b-a3b-q4km"@),
    ]
}

/// The picks of `rows` whose id is in the catalogue, in row order, each with
/// the first catalogue model of that id.
pub open spec fn picks_of(rows: Seq<(Seq<char>, Seq<char>, Seq<char>)>, models: Seq<CatalogModel>) -> Seq<
    (Seq<char>, Seq<char>, Seq<char>, Seq<char>),
>
    decreases rows.len(),
{
    if rows.len() == 0 {
        Seq::empty()
    } else {
        let r = picks_of(rows.drop_last(), models);
        let row = rows.last();
        match first_with_id(models, row.2) {
            Some(i) => r.push((row.0, row.1, models[i].id@, models[i].label@)),
            None => r,
        }
    }
}

/// The models of a sequence of picks.
pub open spec fn pick_models(s: Seq<RecommendPick>) -> Seq<(Seq<char>, Seq<char>, Seq<char>, Seq<char>)> {
    s.map_values(|p: RecommendPick| p.model())
}

fn push_pick(out: &mut Vec<RecommendPick>, catalog: &ModelsCatalogRoot, key: &str, desc: &str, id: &str)
    ensures
        pick_models(final(out)@) == match first_with_id(catalog.models@, id@) {
            Some(i) => pick_models(old(out)@).push(
                (key@, desc@, catalog.models@[i].id@, catalog.models@[i].label@),
            ),
            None => pick_models(old(out)@),
        },
{
    match find_model(catalog, id) {
        Some(m) => {
            out.push(
                RecommendPick {
                    key: owned(key),
                    description_fr: owned(desc),
                    model_id: m.id.clone(),
                    label: m.label.clone(),
                },
            );
            assert(pick_models(out@) =~= pick_models(old(out)@).push(
                (key@, desc@, m.id@, m.label@),
            ));
        },
        None => {},
    }
}

/// The recommended picks available in `catalog`, in row order.
pub fn recommend_picks(catalog: &ModelsCatalogRoot) -> (v: Vec<RecommendPick>)
    ensures
        pick_models(v@) == picks_of(recommend_rows(), catalog.models@),
{
    let mut out: Vec<RecommendPick> = Vec::new();
    assert(pick_models(out@) =~= Seq::empty());
    push_pick(&mut out, catalog, "polyvalent", "Polyvalent / laptop", "qwen3.5-4b-q4km");
    push_pick(&mut out, catalog, "code", "Code / outillage", "qwen2.5-coder-7b-q4km");
    push_pick(&mut out, catalog, "doc", "Doc / spec", "qwen2.5-7b-instruct-q4km");
    push_pick(&mut out, catalog, "puissant", "Station puissante", "qwen3.5-35b-a3b-q4km");
    proof {
        let rows = recommend_rows();
        assert(rows.drop_last().drop_last().drop_last().drop_last() =~= Seq::empty());
        assert(rows.drop_last().drop_last().drop_last() =~= seq![rows[0]]);
        assert(rows.drop_last().drop_last() =~= seq![rows[0], rows[1]]);
        assert(rows.drop_last() =~= seq![rows[0], rows[1], rows[2]]);
        reveal_with_fuel(picks_of, 5);
    }
    out
}

/// `$XDG_DATA_HOME/oaas`, where an unset `XDG_DATA_HOME` stands for
/// `$HOME/.local/share`.
pub open spec fn data_dir_of(env: EnvVars) -> Seq<char> {
    let base = match env.xdg_data_home {
        Some(x) => x@,
        None => path_join(path_join(or_empty(env.home), ".local"@), "share"@),
    };
    path_join(base, "oaas"@)
}

/// The orchestrator's data directory.
pub fn oaas_data_dir(env: &EnvVars) -> (r: String)
    ensures
        r@ == data_dir_of(*env),
{
    let base = match &env.xdg_data_home {
        Some(x) => x.clone(),
        None => {
            let h = value_or_empty(&env.home);
            let l = join(h.as_str(), ".local");
            join(l.as_str(), "share")
        },
    };
    join(base.as_str(), "oaas")
}

/// Where downloaded models go: `<data dir>/models`.
pub fn models_cache_dir(env: &EnvVars) -> (r: String)
    ensures
        r@ == path_join(data_dir_of(*env), "models"@),
{
    let d = oaas_data_dir(env);
    join(d.as_str(), "models")
}

/// Where documentation packs go: `<data dir>/docs`.
pub fn docs_cache_dir(env: &EnvVars) -> (r: String)
    ensures
        r@ == path_join(data_dir_of(*env), "docs"@),
{
    let d = oaas_data_dir(env);
    join(d.as_str(), "docs")
}

/// Where a catalogue is read from: the file named by the environment
/// variable, the installed copy, the working directory's `data/` copy, or
/// the copy built into the program, in that order of preference.
#[derive(Debug, Clone, PartialEq, Eq)]
pub enum CatalogSource {
    EnvOverride(String),
    Installed(String),
    WorkingDir,
    Builtin,
}

/// The installed copy of catalogue `file`, beside a binary at `exe`:
/// `<dir of exe>/../share/oaas/data/<file>`.
pub fn installed_catalog_path(exe: &str, file: &str) -> (r: Option<String>)
    ensures
        match path_parent(exe@) {
            Some(d) => r matches Some(p) && p@ == path_join(d, "../share/oaas/data/"@ + file@),
            None => r is None,
        },
{
    match crate::paths::parent_of(exe) {
        Some(dir) => {
            let rel = concat2("../share/oaas/data/", file);
            Some(join(dir.as_str(), rel.as_str()))
        },
        None => None,
    }
}

/// Picks the source of a catalogue: the environment override when set,
/// else the installed copy when it is a file, else the working-directory
/// copy when it is a file, else the built-in one.
pub fn pick_catalog_source(
    env_override: Option<String>,
    installed: Option<String>,
    installed_is_file: bool,
    cwd_is_file: bool,
) -> (r: CatalogSource)
    ensures
        match env_override {
            Some(p) => r == CatalogSource::EnvOverride(p),
            None => match installed {
                Some(i) if installed_is_file => r == CatalogSource::Installed(i),
                _ => if cwd_is_file {
                    r == CatalogSource::WorkingDir
                } else {
                    r == CatalogSource::Builtin
                },
            },
        },
{
    match env_override {
        Some(p) => CatalogSource::EnvOverride(p),
        None => match installed {
            Some(i) if installed_is_file => CatalogSource::Installed(i),
            _ => if cwd_is_file {
                CatalogSource::WorkingDir
            } else {
                CatalogSource::Builtin
            },
        },
    }
}

} // verus!
