//! The documentation packs catalogue.
use vstd::prelude::*;

use crate::models_catalog::docs_cache_dir;
use crate::paths::{join, path_join, EnvVars};
use crate::models_catalog::data_dir_of;
use crate::text::str_eq;

verus! {

/// The documentation catalogue file.
#[derive(Debug, Clone, PartialEq, Eq)]
pub struct DocsCatalogRoot {
    pub version: u32,
    pub packs: Vec<DocPack>,
}

/// One documentation pack: fetched (`fetch`), cloned (`git`) or a DevDocs
/// setup note (`devdocs`).
#[derive(Debug, Clone, PartialEq, Eq)]
pub struct DocPack {
    pub id: String,
    pub title: String,
    pub method: String,
    /// Empty for `method: devdocs`.
    pub url: String,
    pub branch: String,
    pub note_fr: String,
    /// DevDocs Docker image; empty for the default one.
    pub docker_image: String,
    /// DevDocs port, for `method: devdocs`.
    pub docker_port: Option<u16>,
}

/// Position of the first pack of `s` with id `id`.
pub open spec fn first_pack_with_id(s: Seq<DocPack>, id: Seq<char>) -> Option<int> {
    if exists|i: int| 0 <= i < s.len() && s[i].id@ == id {
        Some(
            choose|i: int|
                0 <= i < s.len() && s[i].id@ == id && forall|j: int| 0 <= j < i ==> s[j].id@ != id,
        )
    } else {
        None
    }
}

/// A pack with id `id` at `w` means there is a first one, at or before `w`.
proof fn lemma_least_pack(s: Seq<DocPack>, id: Seq<char>, w: int)
    requires
        0 <= w < s.len(),
        s[w].id@ == id,
    ensures
        exists|i: int| 0 <= i <= w && s[i].id@ == id && forall|j: int| 0 <= j < i ==> s[j].id@ != id,
    decreases w,
{
    if exists|j: int| 0 <= j < w && s[j].id@ == id {
        let j = choose|j: int| 0 <= j < w && s[j].id@ == id;
        lemma_least_pack(s, id, j);
    } else {
        assert(0 <= w <= w && s[w].id@ == id && forall|j: int| 0 <= j < w ==> s[j].id@ != id);
    }
}

/// [`first_pack_with_id`] gives the position of the first pack with id `id`: it is in
/// range, holds that id, and no pack before it does; it gives `None`
/// exactly when no pack has that id.
pub proof fn lemma_first_pack_with_id(s: Seq<DocPack>, id: Seq<char>)
    ensures
        match first_pack_with_id(s, id) {
            Some(i) => 0 <= i < s.len() && s[i].id@ == id && forall|j: int| 0 <= j < i ==> s[j].id@ != id,
            None => forall|i: int| 0 <= i < s.len() ==> s[i].id@ != id,
        },
{
    if exists|i: int| 0 <= i < s.len() && s[i].id@ == id {
        let w = choose|i: int| 0 <= i < s.len() && s[i].id@ == id;
        lemma_least_pack(s, id, w);
    }
}

/// The first position with the id is the one found.
proof fn lemma_first_pack(s: Seq<DocPack>, id: Seq<char>, w: int)
    requires
        0 <= w < s.len(),
        s[w].id@ == id,
        forall|j: int| 0 <= j < w ==> s[j].id@ != id,
    ensures
        first_pack_with_id(s, id) == Some(w),
{
    assert(0 <= w < s.len() && s[w].id@ == id && forall|j: int| 0 <= j < w ==> s[j].id@ != id);
    let i = choose|i: int|
        0 <= i < s.len() && s[i].id@ == id && forall|j: int| 0 <= j < i ==> s[j].id@ != id;
    if i < w {
        assert(s[i].id@ != id);
    } else if i > w {
        assert(s[w].id@ != id);
    }
}

/// Position of the first pack with id `id`.
fn position_of_pack(packs: &Vec<DocPack>, id: &str) -> (r: Option<usize>)
    ensures
        r matches Some(i) ==> i < packs@.len() && first_pack_with_id(packs@, id@) == Some(i as int),
        r is None ==> first_pack_with_id(packs@, id@) is None,
{
    let mut i: usize = 0;
    while i < packs.len()
        invariant
            0 <= i <= packs.len(),
            forall|j: int| 0 <= j < i ==> packs@[j].id@ != id@,
        decreases packs.len() - i,
    {
        if str_eq(packs[i].id.as_str(), id) {
            proof {
                lemma_first_pack(packs@, id@, i as int);
            }
            return Some(i);
        }
        i += 1;
    }
    None
}

/// The first pack of the catalogue with id `id`.
pub fn find_doc_pack<'a>(root: &'a DocsCatalogRoot, id: &str) -> (r: Option<&'a DocPack>)
    ensures
        match first_pack_with_id(root.packs@, id@) {
            Some(i) => r == Some(&root.packs@[i]),
            None => r is None,
        },
{
    match position_of_pack(&root.packs, id) {
        Some(i) => Some(&root.packs[i]),
        None => None,
    }
}

/// The cache directory of documentation pack `id`.
pub fn doc_pack_dest(env: &EnvVars, id: &str) -> (r: String)
    ensures
        r@ == path_join(path_join(data_dir_of(*env), "docs"@), id@),
{
    let d = docs_cache_dir(env);
    join(d.as_str(), id)
}

} // verus!
