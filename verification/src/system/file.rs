//! File operations, as far as the core decides and computes. Each takes the
//! path as it was asked for and the full path that it stands for.

use vstd::prelude::*;
use vstd::string::StringExecFns;
use crate::system::error::Error;
use crate::system::sandbox::{path_allowed, path_refusal, Sandbox};

verus! {

/// What a directory listing of `path` holds.
pub open spec fn listing(path: Seq<char>) -> Seq<Seq<char>> {
    seq![path + "/file1.txt"@, path + "/file2.txt"@, path + "/subdir"@]
}

/// Lists a directory that the sandbox allows.
pub fn list_directory(full_path: &str, path: &str, sandbox: &Sandbox) -> (r: Result<
    Vec<String>,
    Error,
>)
    ensures
        r is Ok == (!sandbox.config.sandbox_enabled || path_allowed(
            full_path@,
            sandbox.config@.allowed_paths,
        )),
        r matches Ok(entries) ==> entries.deep_view() == listing(path@),
        r matches Err(e) ==> e matches Error::PathNotAllowed(m) && m@ == path_refusal(full_path@),
{
    match sandbox.check_path_allowed(full_path) {
        Ok(()) => {},
        Err(e) => {
            return Err(e);
        },
    }
    let mut entries: Vec<String> = Vec::new();
    entries.push(String::from_str(path).concat("/file1.txt"));
    entries.push(String::from_str(path).concat("/file2.txt"));
    entries.push(String::from_str(path).concat("/subdir"));
    assert(entries.deep_view() =~= listing(path@));
    Ok(entries)
}

/// Reads a file that the sandbox allows.
pub fn read_file(full_path: &str, path: &str, sandbox: &Sandbox) -> (r: Result<String, Error>)
    ensures
        r is Ok == (!sandbox.config.sandbox_enabled || path_allowed(
            full_path@,
            sandbox.config@.allowed_paths,
        )),
        r matches Ok(contents) ==> contents@ == "Contents of file: "@ + path@,
        r matches Err(e) ==> e matches Error::PathNotAllowed(m) && m@ == path_refusal(full_path@),
{
    match sandbox.check_path_allowed(full_path) {
        Ok(()) => {},
        Err(e) => {
            return Err(e);
        },
    }
    Ok(String::from_str("Contents of file: ").concat(path))
}

/// Says whether a file exists, for a path that the sandbox allows.
pub fn file_exists(full_path: &str, sandbox: &Sandbox) -> (r: Result<bool, Error>)
    ensures
        r is Ok == (!sandbox.config.sandbox_enabled || path_allowed(
            full_path@,
            sandbox.config@.allowed_paths,
        )),
        r matches Ok(exists) ==> exists,
        r matches Err(e) ==> e matches Error::PathNotAllowed(m) && m@ == path_refusal(full_path@),
{
    match sandbox.check_path_allowed(full_path) {
        Ok(()) => Ok(true),
        Err(e) => Err(e),
    }
}

/// Whether the sandbox lets a path be used.
pub open spec fn usable(full_path: Seq<char>, sandbox: Sandbox) -> bool {
    !sandbox.config.sandbox_enabled || path_allowed(full_path, sandbox.config@.allowed_paths)
}

/// Allows a file to be written where the sandbox allows its path.
pub fn write_file(full_path: &str, sandbox: &Sandbox) -> (r: Result<(), Error>)
    ensures
        r is Ok == usable(full_path@, *sandbox),
        r matches Err(e) ==> e matches Error::PathNotAllowed(m) && m@ == path_refusal(full_path@),
{
    sandbox.check_path_allowed(full_path)
}

/// Allows a path to be removed where the sandbox allows it.
pub fn remove_path(full_path: &str, sandbox: &Sandbox) -> (r: Result<(), Error>)
    ensures
        r is Ok == usable(full_path@, *sandbox),
        r matches Err(e) ==> e matches Error::PathNotAllowed(m) && m@ == path_refusal(full_path@),
{
    sandbox.check_path_allowed(full_path)
}

/// Allows a file to be copied where the sandbox allows both paths. The
/// source is asked about first, so it is the source that a refusal names
/// where both are refused.
pub fn copy_file(full_src: &str, full_dst: &str, sandbox: &Sandbox) -> (r: Result<(), Error>)
    ensures
        r is Ok == (usable(full_src@, *sandbox) && usable(full_dst@, *sandbox)),
        r matches Err(e) ==> e matches Error::PathNotAllowed(m) && m@ == path_refusal(
            if !usable(full_src@, *sandbox) {
                full_src@
            } else {
                full_dst@
            },
        ),
{
    match sandbox.check_path_allowed(full_src) {
        Ok(()) => {},
        Err(e) => {
            return Err(e);
        },
    }
    sandbox.check_path_allowed(full_dst)
}

/// Allows a file to be moved where the sandbox allows both paths. The source
/// is asked about first, so it is the source that a refusal names where both
/// are refused.
pub fn move_file(full_src: &str, full_dst: &str, sandbox: &Sandbox) -> (r: Result<(), Error>)
    ensures
        r is Ok == (usable(full_src@, *sandbox) && usable(full_dst@, *sandbox)),
        r matches Err(e) ==> e matches Error::PathNotAllowed(m) && m@ == path_refusal(
            if !usable(full_src@, *sandbox) {
                full_src@
            } else {
                full_dst@
            },
        ),
{
    match sandbox.check_path_allowed(full_src) {
        Ok(()) => {},
        Err(e) => {
            return Err(e);
        },
    }
    sandbox.check_path_allowed(full_dst)
}

} // verus!
