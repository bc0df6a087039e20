//! Locating programs: the `llama-server` binary, and any command looked up
//! through `PATH`.
use vstd::prelude::*;

use crate::error::{ErrorModel, OaasError};
use crate::text::{concat2, owned};

verus! {

/// `which::which(bin)`: the path of the executable `bin` found through
/// `PATH`, if any. What it finds depends on the environment and the disk,
/// so nothing is stated of the result.
#[verifier::external_body]
pub(crate) fn which_path(bin: &str) -> (r: Option<String>) {
    match which::which(bin) {
        Ok(p) => Some(p.display().to_string()),
        Err(_) => None,
    }
}

pub open spec fn not_in_path_msg() -> Seq<char> {
    "binaire « llama-server » introuvable dans le PATH — installe llama.cpp ou renseigne runtime.llama_server_binary dans le YAML"@
}

/// The error for a configured `llama-server` path where nothing exists.
pub open spec fn missing_configured_msg(p: Seq<char>) -> Seq<char> {
    "binaire llama-server introuvable (config): "@ + p
}

/// The `llama-server` to run: the configured path when one is given (an
/// error when nothing exists there), otherwise what a `PATH` lookup found
/// (an error when it found nothing). `configured_exists` tells whether the
/// configured path exists; `path_lookup` is the result of the `PATH` lookup.
pub fn llama_binary_from(
    cfg_path: &Option<String>,
    configured_exists: bool,
    path_lookup: &Option<String>,
) -> (r: Result<String, OaasError>)
    ensures
        match cfg_path {
            Some(p) => if configured_exists {
                r matches Ok(b) && b@ == p@
            } else {
                r matches Err(e) && e.model() == ErrorModel::Config(missing_configured_msg(p@))
            },
            None => match path_lookup {
                Some(found) => r matches Ok(b) && b@ == found@,
                None => r matches Err(e) && e.model() == ErrorModel::Config(not_in_path_msg()),
            },
        },
{
    match cfg_path {
        Some(p) => {
            if configured_exists {
                Ok(p.clone())
            } else {
                Err(OaasError::Config(concat2("binaire llama-server introuvable (config): ", p.as_str())))
            }
        },
        None => match path_lookup {
            Some(found) => Ok(found.clone()),
            None => Err(
                OaasError::config(
                    "binaire « llama-server » introuvable dans le PATH — installe llama.cpp ou renseigne runtime.llama_server_binary dans le YAML",
                ),
            ),
        },
    }
}

/// The `llama-server` to run for the configured path `cfg_path`
/// (`configured_exists`: whether something exists there); without one, it
/// is looked up through `PATH`, and then either found or the error says so.
pub fn resolve_llama_binary(cfg_path: &Option<String>, configured_exists: bool) -> (r: Result<String, OaasError>)
    ensures
        match cfg_path {
            Some(p) => if configured_exists {
                r matches Ok(b) && b@ == p@
            } else {
                r matches Err(e) && e.model() == ErrorModel::Config(missing_configured_msg(p@))
            },
            None => r is Ok || (r matches Err(e) && e.model() == ErrorModel::Config(not_in_path_msg())),
        },
{
    match cfg_path {
        Some(_) => llama_binary_from(cfg_path, configured_exists, &None),
        None => {
            let found = which_path("llama-server");
            llama_binary_from(cfg_path, configured_exists, &found)
        },
    }
}

} // verus!
