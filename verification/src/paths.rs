//! File-system paths the orchestrator derives from its environment: the
//! configuration file, the data and cache directories, Continue's files.
//! Paths are strings; joining follows Unix `PathBuf::push`.
use vstd::prelude::*;

use crate::text::{concat2, owned, push_char, to_chars};

verus! {

/// The environment variables the paths depend on (`None`: not set).
#[derive(Debug, Clone, PartialEq, Eq)]
pub struct EnvVars {
    pub home: Option<String>,
    pub xdg_config_home: Option<String>,
    pub xdg_data_home: Option<String>,
}

/// `base` joined with `p` (Unix `Path::join`): an absolute `p` replaces
/// `base`; otherwise a `/` separates them unless `base` is empty or already
/// ends with one.
pub open spec fn path_join(base: Seq<char>, p: Seq<char>) -> Seq<char> {
    if p.len() > 0 && p[0] == '/' {
        p
    } else if base.len() > 0 && base.last() != '/' {
        base + seq!['/'] + p
    } else {
        base + p
    }
}

/// `base` joined with `p`.
pub fn join(base: &str, p: &str) -> (r: String)
    ensures
        r@ == path_join(base@, p@),
{
    let vb = to_chars(base);
    let vp = to_chars(p);
    if vp.len() > 0 && vp[0] == '/' {
        owned(p)
    } else if vb.len() > 0 && vb[vb.len() - 1] != '/' {
        let mut r = owned(base);
        push_char(&mut r, '/');
        r.append(p);
        r
    } else {
        concat2(base, p)
    }
}

/// The value of an optional variable, or the empty string.
pub open spec fn or_empty(v: Option<String>) -> Seq<char> {
    match v {
        Some(s) => s@,
        None => Seq::empty(),
    }
}

pub(crate) fn value_or_empty(v: &Option<String>) -> (r: String)
    ensures
        r@ == or_empty(*v),
{
    match v {
        Some(s) => s.clone(),
        None => String::new(),
    }
}

/// The last component of a path, if it is a normal one (`Path::file_name`).
pub uninterp spec fn path_file_name(p: Seq<char>) -> Option<Seq<char>>;

/// A path without its last component, if it has one (`Path::parent`).
pub uninterp spec fn path_parent(p: Seq<char>) -> Option<Seq<char>>;

/// `Path::file_name` of `p`; the result is named by [`path_file_name`].
#[verifier::external_body]
pub(crate) fn file_name_of(p: &str) -> (r: Option<String>)
    ensures
        r is Some <==> path_file_name(p@) is Some,
        r matches Some(s) ==> path_file_name(p@) == Some(s@),
{
    std::path::Path::new(p).file_name().map(|s| s.to_string_lossy().into_owned())
}

/// `Path::parent` of `p`; the result is named by [`path_parent`].
#[verifier::external_body]
pub(crate) fn parent_of(p: &str) -> (r: Option<String>)
    ensures
        r is Some <==> path_parent(p@) is Some,
        r matches Some(s) ==> path_parent(p@) == Some(s@),
{
    std::path::Path::new(p).parent().map(|s| s.to_string_lossy().into_owned())
}

/// Whether path `p` begins with the components of `base` (`Path::starts_with`).
pub uninterp spec fn path_starts_with(p: Seq<char>, base: Seq<char>) -> bool;

/// `Path::starts_with`: `p` begins with the whole components of `base`; the
/// result is named by [`path_starts_with`].
#[verifier::external_body]
pub(crate) fn starts_with_path(p: &str, base: &str) -> (r: bool)
    ensures
        r == path_starts_with(p@, base@),
{
    std::path::Path::new(p).starts_with(std::path::Path::new(base))
}

} // verus!
