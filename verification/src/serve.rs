//! The checks `oaas serve` makes before it listens, and their errors.
use vstd::prelude::*;

use crate::config::{ConfigFile, Profile, PromptCompressionConfig};
use crate::error::{ErrorModel, OaasError};
use crate::text::{debug_list, debug_strings, owned, views};

verus! {

/// The error when the configuration file `path` does not exist.
pub fn missing_config_error(path: &str) -> (e: OaasError)
    ensures
        e.model() == ErrorModel::Config(
            "fichier de configuration absent: "@ + path@ + " — copie config.example.yaml ou oaas init-config."@,
        ),
{
    OaasError::Config(owned("fichier de configuration absent: ").concat(path).concat(
        " — copie config.example.yaml ou oaas init-config.",
    ))
}

/// The profile `oaas serve` runs, or the error that lists the profiles.
pub fn serve_profile<'a>(cfg: &'a ConfigFile, name: &str) -> (r: Result<&'a Profile, OaasError>)
    ensures
        match cfg.profiles.lookup(name@) {
            Some(p) => r matches Ok(q) && *q == p,
            None => r matches Err(e) && e.model() == ErrorModel::Config(
                "profil « "@ + name@ + " » introuvable — profils disponibles: "@ + debug_list(
                    views(cfg.profiles@.map_values(|e: (String, Profile)| e.0)),
                ),
            ),
        },
{
    match cfg.profiles.get(name) {
        Some(p) => Ok(p),
        None => {
            let names = cfg.profiles.names_list();
            assert(views(names@) =~= views(cfg.profiles@.map_values(|e: (String, Profile)| e.0)));
            let listing = debug_strings(&names);
            Err(
                OaasError::Config(
                    owned("profil « ").concat(name).concat(" » introuvable — profils disponibles: ").concat(
                        listing.as_str(),
                    ),
                ),
            )
        },
    }
}

/// Whether `oaas serve` starts the compression worker: when compression is
/// enabled, which needs a command.
pub fn serve_compression(pc: &PromptCompressionConfig) -> (r: Result<bool, OaasError>)
    ensures
        !pc.enabled ==> r == Ok::<bool, OaasError>(false),
        pc.enabled && pc.command@.len() > 0 ==> r == Ok::<bool, OaasError>(true),
        pc.enabled && pc.command@.len() == 0 ==> (r matches Err(e) && e.model() == ErrorModel::Config(
            "prompt_compression.enabled est true mais command est vide — remplis la liste (python + worker)"@,
        )),
{
    if !pc.enabled {
        Ok(false)
    } else if pc.command.len() == 0 {
        Err(
            OaasError::config(
                "prompt_compression.enabled est true mais command est vide — remplis la liste (python + worker)",
            ),
        )
    } else {
        Ok(true)
    }
}

/// The error when the listen address `bind` cannot be bound (`reason`: the
/// system's message).
pub fn bind_error(bind: &str, reason: &str) -> (e: OaasError)
    ensures
        e.model() == ErrorModel::Config("impossible de binder "@ + bind@ + ": "@ + reason@),
{
    OaasError::Config(owned("impossible de binder ").concat(bind).concat(": ").concat(reason))
}

} // verus!
