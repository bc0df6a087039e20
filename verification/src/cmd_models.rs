//! `oaas models`: the listings of the model catalogue, the detail of a
//! model, and where `pull` puts a model.
use vstd::prelude::*;

use crate::error::{ErrorModel, OaasError};
use crate::models_catalog::{
    data_dir_of, find_model, first_with_id, models_cache_dir, pick_models, picks_of, recommend_picks,
    recommend_rows, CatalogModel, ModelsCatalogRoot,
};
use crate::paths::{join, path_join, EnvVars};
use crate::text::{decimal, fmt_u64, owned, pad_right, pad_to, push_line, str_eq, views};

verus! {

/// The subcommands of `oaas models`.
#[derive(Debug, Clone, PartialEq, Eq)]
pub enum ModelsCommand {
    /// List the catalogue (optionally the models of one usage), or only the
    /// recommendations.
    List { usage: Option<String>, recommend: bool },
    /// The detail of a model.
    Info { id: String },
    /// Download a model into the cache (or `dir`); optionally point a
    /// profile of the configuration at it.
    Pull {
        id: String,
        dir: Option<String>,
        patch_config: bool,
        config: Option<String>,
        profile: String,
        force: bool,
    },
    /// Where `pull` puts a model.
    Path { id: String, dir: Option<String> },
    /// Instruct versus Coder, and the picks of the catalogue.
    Recommend,
}

/// What std's `str::to_lowercase` gives for `s`.
pub uninterp spec fn lowercase(s: Seq<char>) -> Seq<char>;

/// std's `str::to_lowercase`.
#[verifier::external_body]
fn to_lower(s: &str) -> (r: String)
    ensures
        r@ == lowercase(s@),
{
    s.to_lowercase()
}

/// Model `m` is tagged with usage `u`, compared in lower case.
pub open spec fn has_usage(m: CatalogModel, u: Seq<char>) -> bool {
    exists|k: int| 0 <= k < m.usage@.len() && lowercase(#[trigger] m.usage@[k]@) == lowercase(u)
}

/// Model `m` is listed under the usage filter.
pub open spec fn shown(m: CatalogModel, usage: Option<String>) -> bool {
    match usage {
        None => true,
        Some(u) => has_usage(m, u@),
    }
}

/// The listing line of a model.
pub open spec fn model_line(m: CatalogModel) -> Seq<char> {
    "  "@ + pad_right(m.id@, 22) + " ["@ + m.kind@ + "] "@ + m.label@ + " (~"@ + decimal(m.approx_size_mb as nat)
        + " Mo)"@
}

/// The listing lines of the models of `s` that the filter shows, in order.
pub open spec fn model_list_lines(s: Seq<CatalogModel>, usage: Option<String>) -> Seq<Seq<char>>
    decreases s.len(),
{
    if s.len() == 0 {
        seq![]
    } else {
        let r = model_list_lines(s.drop_last(), usage);
        if shown(s.last(), usage) {
            r.push(model_line(s.last()))
        } else {
            r
        }
    }
}

/// What `oaas models list [--usage u]` prints, line by line.
pub open spec fn models_list_of(c: ModelsCatalogRoot, usage: Option<String>) -> Seq<Seq<char>> {
    seq!["Catalogue OAAS (v"@ + decimal(c.version as nat) + ") — modèles :\n"@] + model_list_lines(c.models@, usage)
        + seq!["\nCommandes : oaas models info <id> | oaas models pull <id> | oaas models path <id>"@]
}

fn tagged(m: &CatalogModel, lower: &str) -> (r: bool)
    ensures
        r == (exists|k: int| 0 <= k < m.usage@.len() && lowercase(#[trigger] m.usage@[k]@) == lower@),
{
    let mut k: usize = 0;
    while k < m.usage.len()
        invariant
            0 <= k <= m.usage.len(),
            forall|j: int| 0 <= j < k ==> lowercase(#[trigger] m.usage@[j]@) != lower@,
        decreases m.usage.len() - k,
    {
        let x = to_lower(m.usage[k].as_str());
        if str_eq(x.as_str(), lower) {
            return true;
        }
        k += 1;
    }
    false
}

/// What `oaas models list [--usage u]` prints, one string per printed line.
pub fn models_list_lines(c: &ModelsCatalogRoot, usage: &Option<String>) -> (lines: Vec<String>)
    ensures
        views(lines@) == models_list_of(*c, *usage),
{
    let mut v: Vec<String> = Vec::new();
    let version = fmt_u64(c.version as u64);
    push_line(&mut v, owned("Catalogue OAAS (v").concat(version.as_str()).concat(") — modèles :\n"));
    let ghost head = views(v@);
    let wanted: Option<String> = match usage {
        Some(u) => Some(to_lower(u.as_str())),
        None => None,
    };
    let mut i: usize = 0;
    assert(c.models@.subrange(0, 0) =~= Seq::<CatalogModel>::empty());
    assert(views(v@) =~= head + model_list_lines(c.models@.subrange(0, 0), *usage));
    while i < c.models.len()
        invariant
            0 <= i <= c.models.len(),
            views(v@) == head + model_list_lines(c.models@.subrange(0, i as int), *usage),
            match *usage {
                None => wanted is None,
                Some(u) => wanted matches Some(w) && w@ == lowercase(u@),
            },
        decreases c.models.len() - i,
    {
        let m = &c.models[i];
        let ghost before = views(v@);
        assert(c.models@.subrange(0, i + 1).drop_last() =~= c.models@.subrange(0, i as int));
        let show = match &wanted {
            None => true,
            Some(w) => tagged(m, w.as_str()),
        };
        if show {
            let id = pad_to(m.id.as_str(), 22);
            let size = fmt_u64(m.approx_size_mb as u64);
            push_line(
                &mut v,
                owned("  ").concat(id.as_str()).concat(" [").concat(m.kind.as_str()).concat("] ").concat(
                    m.label.as_str(),
                ).concat(" (~").concat(size.as_str()).concat(" Mo)"),
            );
        }
        assert(views(v@) =~= head + model_list_lines(c.models@.subrange(0, i + 1), *usage));
        i += 1;
    }
    assert(c.models@.subrange(0, i as int) =~= c.models@);
    push_line(
        &mut v,
        owned("\nCommandes : oaas models info <id> | oaas models pull <id> | oaas models path <id>"),
    );
    assert(views(v@) =~= models_list_of(*c, *usage));
    v
}


/// The texts of `s` joined with `sep` between them.
pub open spec fn joined(s: Seq<String>, sep: Seq<char>) -> Seq<char>
    decreases s.len(),
{
    if s.len() == 0 {
        seq![]
    } else if s.len() == 1 {
        s[0]@
    } else {
        joined(s.drop_last(), sep) + sep + s.last()@
    }
}

/// The texts of `v` joined with `sep` (as `join` on a list of strings).
pub fn join_strings(v: &Vec<String>, sep: &str) -> (r: String)
    ensures
        r@ == joined(v@, sep@),
{
    let mut r = String::new();
    let mut i: usize = 0;
    assert(v@.subrange(0, 0) =~= Seq::<String>::empty());
    while i < v.len()
        invariant
            0 <= i <= v.len(),
            r@ == joined(v@.subrange(0, i as int), sep@),
        decreases v.len() - i,
    {
        assert(v@.subrange(0, i + 1).drop_last() =~= v@.subrange(0, i as int));
        if i == 0 {
            r = owned(v[0].as_str());
        } else {
            r = r.concat(sep).concat(v[i].as_str());
        }
        i += 1;
    }
    assert(v@.subrange(0, i as int) =~= v@);
    r
}

/// What `oaas models info` prints for model `m`, line by line.
pub open spec fn model_detail_of(m: CatalogModel) -> Seq<Seq<char>> {
    seq![
        m.label@ + "\n"@,
        "id          : "@ + m.id@,
        "famille     : "@ + m.family@ + " ("@ + m.kind@ + ")"@,
        "usage       : "@ + joined(m.usage@, ", "@),
        "taille ~    : "@ + decimal(m.approx_size_mb as nat) + " Mo"@,
        "URL HF      : "@ + ("https://huggingface.co/"@ + m.hf_repo@ + "/resolve/main/"@ + m.filename@),
        "\n"@ + m.note_fr@,
    ]
}

/// What `oaas models info` prints for model `m`, one string per line.
pub fn model_detail_lines(m: &CatalogModel) -> (lines: Vec<String>)
    ensures
        views(lines@) == model_detail_of(*m),
{
    let mut v: Vec<String> = Vec::new();
    push_line(&mut v, owned(m.label.as_str()).concat("\n"));
    push_line(&mut v, owned("id          : ").concat(m.id.as_str()));
    push_line(&mut v, owned("famille     : ").concat(m.family.as_str()).concat(" (").concat(m.kind.as_str()).concat(")"));
    let usage = join_strings(&m.usage, ", ");
    push_line(&mut v, owned("usage       : ").concat(usage.as_str()));
    let size = fmt_u64(m.approx_size_mb as u64);
    push_line(&mut v, owned("taille ~    : ").concat(size.as_str()).concat(" Mo"));
    let url = m.huggingface_download_url();
    push_line(&mut v, owned("URL HF      : ").concat(url.as_str()));
    push_line(&mut v, owned("\n").concat(m.note_fr.as_str()));
    assert(views(v@) =~= model_detail_of(*m));
    v
}

/// The advice that opens `oaas models recommend`.
pub open spec fn advice_text() -> Seq<char> {
    "Recommandations OAAS (Instruct vs Coder)\n\n• Instruct : meilleur « couteau suisse » pour spec, documentation longue, explications, organisation de projet.\n• Coder : meilleur pour génération / relecture de code, patches, navigation d’arbre source.\n• Pour un poste modeste : commence avec un Qwen3.5 4B Instruct (polyvalent).\n• Pour du dev sérieux + machine correcte : ajoute un Qwen2.5 Coder 7B pour la partie code.\n• Grosse machine : Qwen3.5 35B-A3B (très lourd) pour tout regrouper.\n"@
}

/// The line of a pick (key, description, model id, label).
pub open spec fn pick_line(p: (Seq<char>, Seq<char>, Seq<char>, Seq<char>)) -> Seq<char> {
    "  • "@ + p.1 + " : "@ + p.2 + " — "@ + p.3
}

/// What `oaas models recommend` prints, line by line.
pub open spec fn recommendations_of(c: ModelsCatalogRoot) -> Seq<Seq<char>> {
    seq![advice_text(), "Picks du catalogue :\n"@] + picks_of(recommend_rows(), c.models@).map_values(
        |p: (Seq<char>, Seq<char>, Seq<char>, Seq<char>)| pick_line(p),
    ) + seq!["\nVoir : oaas models list | oaas models list --usage dev"@]
}

/// What `oaas models recommend` prints, one string per printed line.
pub fn recommendation_lines(c: &ModelsCatalogRoot) -> (lines: Vec<String>)
    ensures
        views(lines@) == recommendations_of(*c),
{
    let mut v: Vec<String> = Vec::new();
    push_line(
        &mut v,
        owned(
            "Recommandations OAAS (Instruct vs Coder)\n\n• Instruct : meilleur « couteau suisse » pour spec, documentation longue, explications, organisation de projet.\n• Coder : meilleur pour génération / relecture de code, patches, navigation d’arbre source.\n• Pour un poste modeste : commence avec un Qwen3.5 4B Instruct (polyvalent).\n• Pour du dev sérieux + machine correcte : ajoute un Qwen2.5 Coder 7B pour la partie code.\n• Grosse machine : Qwen3.5 35B-A3B (très lourd) pour tout regrouper.\n",
        ),
    );
    push_line(&mut v, owned("Picks du catalogue :\n"));
    let ghost head = views(v@);
    let picks = recommend_picks(c);
    let ghost ps = pick_models(picks@);
    let mut i: usize = 0;
    while i < picks.len()
        invariant
            0 <= i <= picks.len(),
            ps == pick_models(picks@),
            views(v@) == head + ps.subrange(0, i as int).map_values(
                |p: (Seq<char>, Seq<char>, Seq<char>, Seq<char>)| pick_line(p),
            ),
        decreases picks.len() - i,
    {
        let ghost before = views(v@);
        let p = &picks[i];
        push_line(
            &mut v,
            owned("  • ").concat(p.description_fr.as_str()).concat(" : ").concat(p.model_id.as_str()).concat(
                " — ",
            ).concat(p.label.as_str()),
        );
        assert(ps[i as int] == p.model());
        assert(ps.subrange(0, i + 1).map_values(|p: (Seq<char>, Seq<char>, Seq<char>, Seq<char>)| pick_line(p))
            =~= ps.subrange(0, i as int).map_values(
            |p: (Seq<char>, Seq<char>, Seq<char>, Seq<char>)| pick_line(p),
        ).push(pick_line(ps[i as int])));
        i += 1;
    }
    assert(ps.subrange(0, i as int) =~= ps);
    push_line(&mut v, owned("\nVoir : oaas models list | oaas models list --usage dev"));
    assert(views(v@) =~= recommendations_of(*c));
    v
}

/// The error for a model id the catalogue does not know.
pub open spec fn unknown_model_msg(id: Seq<char>) -> Seq<char> {
    "modèle « "@ + id + " » inconnu du catalogue"@
}

/// The model of the catalogue with id `id` (the first one), or the error
/// `oaas models info|pull|path` give for an unknown id.
pub fn lookup_model<'a>(c: &'a ModelsCatalogRoot, id: &str) -> (r: Result<&'a CatalogModel, OaasError>)
    ensures
        match first_with_id(c.models@, id@) {
            Some(i) => r matches Ok(m) && *m == c.models@[i],
            None => r matches Err(e) && e.model() == ErrorModel::Config(unknown_model_msg(id@)),
        },
{
    match find_model(c, id) {
        Some(m) => Ok(m),
        None => Err(OaasError::Config(owned("modèle « ").concat(id).concat(" » inconnu du catalogue"))),
    }
}

/// Where `pull` puts a model file: in `dir` when given, else in the models
/// cache.
pub open spec fn pull_dest_of(dir: Option<String>, filename: Seq<char>, env: EnvVars) -> Seq<char> {
    let base = match dir {
        Some(d) => d@,
        None => path_join(data_dir_of(env), "models"@),
    };
    path_join(base, filename)
}

/// Where `pull` puts model `m`.
pub fn pull_dest(dir: &Option<String>, m: &CatalogModel, env: &EnvVars) -> (r: String)
    ensures
        r@ == pull_dest_of(*dir, m.filename@, *env),
{
    let base = match dir {
        Some(d) => owned(d.as_str()),
        None => models_cache_dir(env),
    };
    join(base.as_str(), m.filename.as_str())
}

/// The line printed once `--patch-config` has pointed `profile` at the
/// model in configuration file `config_path`.
pub fn profile_patched_line(profile: &str, config_path: &str) -> (s: String)
    ensures
        s@ == "Profil « "@ + profile@ + " » mis à jour dans "@ + config_path@ + " (champ model)."@,
{
    owned("Profil « ").concat(profile).concat(" » mis à jour dans ").concat(config_path).concat(" (champ model).")
}

} // verus!
