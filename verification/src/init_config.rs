//! `oaas init-config`: whether the example configuration may be written,
//! and what is printed once it is.
use vstd::prelude::*;

use crate::text::{owned, push_line, views};

verus! {

/// The example configuration is written unless a file is already at
/// `path` (`exists`) and `--force` is not given; the error says so.
pub fn init_config_check(path: &str, exists: bool, force: bool) -> (r: Result<(), String>)
    ensures
        (exists && !force) ==> (r matches Err(m) && m@ == "existe déjà : "@ + path@ + " — utilise --force pour écraser"@),
        !(exists && !force) ==> r is Ok,
{
    if exists && !force {
        Err(owned("existe déjà : ").concat(path).concat(" — utilise --force pour écraser"))
    } else {
        Ok(())
    }
}

/// What `oaas init-config` prints once the file is written at `path`.
pub open spec fn init_config_lines_of(path: Seq<char>) -> Seq<Seq<char>> {
    seq![
        "Configuration créée : "@ + path,
        "Modèle : édite « profiles.default.model » vers un .gguf existant, ou depuis le dépôt : make models-recommend puis make models-pull ID=<id>."@,
        "Serveur : make serve (ici) ou oaas serve (après make install-user / cargo install)."@,
    ]
}

/// What `oaas init-config` prints once the file is written at `path`, one
/// string per line.
pub fn init_config_lines(path: &str) -> (v: Vec<String>)
    ensures
        views(v@) == init_config_lines_of(path@),
{
    let mut v: Vec<String> = Vec::new();
    push_line(&mut v, owned("Configuration créée : ").concat(path));
    push_line(
        &mut v,
        owned(
            "Modèle : édite « profiles.default.model » vers un .gguf existant, ou depuis le dépôt : make models-recommend puis make models-pull ID=<id>.",
        ),
    );
    push_line(&mut v, owned("Serveur : make serve (ici) ou oaas serve (après make install-user / cargo install)."));
    assert(views(v@) =~= init_config_lines_of(path@));
    v
}

} // verus!
