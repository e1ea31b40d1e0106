//! Where the data archive is found. Paths are std's: how they are taken
//! apart and put together is the platform's to say, so what std makes of a
//! path is named, not written out.

use crate::error::{leaf_error, wraps_display, GenericError};
use crate::Args;
use std::path::PathBuf;
use vstd::prelude::*;

verus! {

/// `std::path::PathBuf`. Opaque.
#[verifier::external_type_specification]
#[verifier::external_body]
pub struct ExPathBuf(PathBuf);

/// `PathBuf::clone`: the same path.
pub assume_specification[ <PathBuf as Clone>::clone ](path: &PathBuf) -> (r: PathBuf)
    ensures
        r == *path,
;

/// What `Path::parent` gives for a path: the path without its last
/// component, if it has one. Which part of a path is its last component is
/// the platform's to say; for one platform this depends on nothing but the
/// path. Only [`path_parent`] says anything of it.
pub uninterp spec fn parent_of(path: PathBuf) -> Option<PathBuf>;

/// What `Path::join` gives for a directory and a name: the path of that
/// name in the directory. How the two are put together is the platform's to
/// say; for one platform this depends on nothing but the two. Only
/// [`path_join`] says anything of it.
pub uninterp spec fn joined(dir: PathBuf, name: Seq<char>) -> PathBuf;

/// What `Path::display` gives for a path, as text. Only [`path_text`] says
/// anything of it.
pub uninterp spec fn shown(path: PathBuf) -> Seq<char>;

/// `Path::parent`, as a path of its own. The result is named.
#[verifier::external_body]
fn path_parent(path: &PathBuf) -> (r: Option<PathBuf>)
    ensures
        r == parent_of(*path),
{
    path.parent().map(|p| p.to_path_buf())
}

/// `Path::join`. The result is named.
#[verifier::external_body]
fn path_join(path: &PathBuf, name: &str) -> (r: PathBuf)
    ensures
        r == joined(*path, name@),
{
    path.join(name)
}

/// `Path::display`, as text. The result is named.
#[verifier::external_body]
fn path_text(path: &PathBuf) -> (r: String)
    ensures
        r@ == shown(*path),
{
    path.display().to_string()
}

/// The error for an executable path that has no parent.
pub fn no_parent(exe_path: &str) -> (e: GenericError)
    ensures
        leaf_error(exe_path@ + ": can't get parent of executable path"@, e),
{
    let mut message = String::from_str(exe_path);
    message.append(": can't get parent of executable path");
    GenericError::from(message)
}

/// The data file beside an executable, given the directory that holds the
/// executable, if the system found one, and the executable's path as text
/// for the error: the file called [`crate::DATA_FILENAME`] in that
/// directory.
pub fn beside_executable(exe_path: &str, exe_dir: Option<PathBuf>) -> (r: Result<
    PathBuf,
    GenericError,
>)
    ensures
        match exe_dir {
            Some(dir) => r == Ok::<PathBuf, GenericError>(joined(dir, crate::DATA_FILENAME@)),
            None => r matches Err(e) && leaf_error(
                exe_path@ + ": can't get parent of executable path"@,
                e,
            ),
        },
{
    match exe_dir {
        None => Err(no_parent(exe_path)),
        Some(dir) => Ok(path_join(&dir, crate::DATA_FILENAME)),
    }
}

/// What the default data file path is, given what the system said of the
/// path of the executable: the data file in the directory of the
/// executable, an error that carries the system's where it gave none, and
/// an error that names the executable where it has no directory.
pub open spec fn default_path(
    exe_path: Result<PathBuf, std::io::Error>,
    r: Result<PathBuf, GenericError>,
) -> bool {
    match exe_path {
        Err(err) => r matches Err(e) && wraps_display("can't get executable path"@, &err, e),
        Ok(path) => match parent_of(path) {
            Some(dir) => r == Ok::<PathBuf, GenericError>(joined(dir, crate::DATA_FILENAME@)),
            None => r matches Err(e) && leaf_error(
                shown(path) + ": can't get parent of executable path"@,
                e,
            ),
        },
    }
}

/// Gets the default data file path, used if none is specified on the
/// command line: the data file lies beside the executable, whose path the
/// system gave as `exe_path`.
pub fn get_default_path(exe_path: Result<PathBuf, std::io::Error>) -> (r: Result<
    PathBuf,
    GenericError,
>)
    ensures
        default_path(exe_path, r),
{
    let exe_path = match exe_path {
        Ok(path) => path,
        Err(err) => {
            return Err(GenericError::caused_by("can't get executable path", &err));
        },
    };
    let text = path_text(&exe_path);
    beside_executable(text.as_str(), path_parent(&exe_path))
}

/// The path of the data archive: the one given on the command line, or
/// else the default one, for which the system is asked the path of the
/// executable through `current_exe`.
pub fn data_path<F: FnOnce() -> Result<PathBuf, std::io::Error>>(args: &Args, current_exe: F) -> (r:
    Result<PathBuf, GenericError>)
    requires
        call_requires(current_exe, ()),
    ensures
        match args.data_path {
            Some(path) => r == Ok::<PathBuf, GenericError>(path),
            None => exists|found: Result<PathBuf, std::io::Error>| #[trigger]
                call_ensures(current_exe, (), found) && default_path(found, r),
        },
{
    match &args.data_path {
        Some(path) => Ok(path.clone()),
        None => {
            let found = current_exe();
            let ghost given = found;
            let r = get_default_path(found);
            assert(call_ensures(current_exe, (), given) && default_path(given, r));
            r
        },
    }
}

} // verus!
