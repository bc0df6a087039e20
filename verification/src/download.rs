//! Downloads with resumption: the temporary `.part` file, the `Range`
//! request that resumes it, and what each answer of the server leads to.
use vstd::prelude::*;

use crate::paths::{file_name_of, join, parent_of, path_file_name, path_join, path_parent};
use crate::text::{concat2, concat3, decimal, fmt_u64, owned};

verus! {

/// The temporary file a download of `dest` goes to: `<name>.part` beside
/// `dest` (`download.part` when `dest` has no file name, in `.` when it has
/// no parent).
pub open spec fn partial_path_of(dest: Seq<char>) -> Seq<char> {
    let name = match path_file_name(dest) {
        Some(n) => n,
        None => "download"@,
    };
    let dir = match path_parent(dest) {
        Some(d) => d,
        None => "."@,
    };
    path_join(dir, name + ".part"@)
}

/// The temporary file a download of `dest` goes to.
pub fn partial_download_path(dest: &str) -> (r: String)
    ensures
        r@ == partial_path_of(dest@),
{
    partial_path_from(file_name_of(dest), parent_of(dest))
}

/// The temporary file of a download, from the file name and the parent of
/// its destination (as `Path::file_name` and `Path::parent` give them).
pub fn partial_path_from(name: Option<String>, parent: Option<String>) -> (r: String)
    ensures
        r@ == path_join(
            match parent {
                Some(d) => d@,
                None => "."@,
            },
            match name {
                Some(n) => n@,
                None => "download"@,
            } + ".part"@,
        ),
{
    let name = match name {
        Some(n) => n,
        None => owned("download"),
    };
    let dir = match parent {
        Some(d) => d,
        None => owned("."),
    };
    let part = concat2(name.as_str(), ".part");
    join(dir.as_str(), part.as_str())
}


/// How many requests a download makes before it gives up.
pub const DOWNLOAD_ATTEMPTS: u32 = 8;

/// The `Range` header that resumes a download after `offset` bytes already
/// in the `.part` file (`bytes=<offset>-`); none when nothing is there yet.
pub fn range_header(offset: u64) -> (r: Option<String>)
    ensures
        offset == 0 ==> r is None,
        offset > 0 ==> (r matches Some(h) && h@ == "bytes="@ + decimal(offset as nat) + "-"@),
{
    if offset == 0 {
        None
    } else {
        let n = fmt_u64(offset);
        Some(concat3("bytes=", n.as_str(), "-"))
    }
}

/// What a download attempt does with the server's answer.
#[derive(Debug, Clone, PartialEq, Eq)]
pub enum DownloadAction {
    /// 416 Range Not Satisfiable: delete the `.part` file and try again.
    RetryWithoutPart,
    /// Any other non-2xx status: the download fails.
    Fail,
    /// Write the body into the `.part` file: appended to what is there
    /// (`append`), or into a fresh file, after deleting the old `.part` when
    /// `discard_part`.
    Write { append: bool, discard_part: bool },
}

/// Whether an HTTP status is a success (2xx).
pub open spec fn is_success(status: u16) -> bool {
    200 <= status <= 299
}

/// The action for an answer with `status` to a request made with `offset`
/// bytes already downloaded: a 416 discards the `.part` and retries; other
/// failures fail; a success is appended only when it is a 206 answer to a
/// resumed request; a success that does not resume starts the `.part` anew.
pub open spec fn action_for(offset: u64, status: u16) -> DownloadAction {
    if status == 416 {
        DownloadAction::RetryWithoutPart
    } else if !is_success(status) {
        DownloadAction::Fail
    } else {
        let append = offset > 0 && status == 206;
        DownloadAction::Write { append, discard_part: offset > 0 && !append }
    }
}

/// The action for an answer with `status` to a request made with `offset`
/// bytes already downloaded.
pub fn download_action(offset: u64, status: u16) -> (a: DownloadAction)
    ensures
        a == action_for(offset, status),
{
    if status == 416 {
        DownloadAction::RetryWithoutPart
    } else if !(200 <= status && status <= 299) {
        DownloadAction::Fail
    } else {
        let append = offset > 0 && status == 206;
        DownloadAction::Write { append, discard_part: offset > 0 && !append }
    }
}

/// Whether a download may make request number `attempt` (counted from 0).
pub fn may_attempt(attempt: u32) -> (r: bool)
    ensures
        r == (attempt < DOWNLOAD_ATTEMPTS),
{
    attempt < DOWNLOAD_ATTEMPTS
}

/// Appending happens only when a resumed request got a 206 answer, and
/// never on a fresh `.part`; a fresh download (no offset) never discards.
pub proof fn law_append_only_on_partial_content(offset: u64, status: u16)
    ensures
        (action_for(offset, status) matches DownloadAction::Write { append, discard_part } ==> ((append
            <==> (offset > 0 && status == 206)) && !(append && discard_part) && (offset == 0
            ==> !discard_part))),
{
}

/// No failed answer is ever written: for every offset, an answer whose
/// status is neither 416 nor in `200..=299` fails the download, and the body
/// is written only for a `2xx` answer.
pub proof fn law_only_success_is_written(offset: u64, status: u16)
    ensures
        status != 416 && !(200 <= status && status <= 299) ==> action_for(offset, status) is Fail,
        action_for(offset, status) is Write ==> 200 <= status && status <= 299,
        action_for(offset, status) is RetryWithoutPart <==> status == 416,
{
}

} // verus!
