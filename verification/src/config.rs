//! Where the tracker keeps its data.
use vstd::prelude::*;
use crate::text::{chars_of, push_str, string_of};

verus! {

/// `base` joined with the relative name `name`, as `PathBuf::push` joins them: a `/`
/// goes between them unless `base` is empty or already ends in one.
pub open spec fn joined(base: Seq<char>, name: Seq<char>) -> Seq<char> {
    if base.len() == 0 || base.last() == '/' { base + name } else { base + seq!['/'] + name }
}

/// Joins a relative name to a directory path.
pub fn join_path(base: &str, name: &str) -> (r: String)
    ensures
        r@ == joined(base@, name@),
{
    let b = chars_of(base);
    let mut out = b.clone();
    if b.len() > 0 && b[b.len() - 1] != '/' {
        out.push('/');
    }
    push_str(&mut out, name);
    assert(out@ =~= joined(base@, name@));
    string_of(&out)
}

/// `dirs::data_local_dir()`, as text (lossily, for a path that is not Unicode). It
/// depends on the user's environment; nothing is stated of it.
#[verifier::external_body]
fn local_data_dir() -> (r: Option<String>) {
    dirs::data_local_dir().map(|p| p.to_string_lossy().into_owned())
}

/// `dirs::runtime_dir()` (on Linux `$XDG_RUNTIME_DIR` when it is an absolute path),
/// as text (lossily, for a path that is not Unicode). It depends on the user's
/// environment; nothing is stated of it.
#[verifier::external_body]
fn runtime_dir() -> (r: Option<String>) {
    dirs::runtime_dir().map(|p| p.to_string_lossy().into_owned())
}

/// The directory that `local` stands for: the user's local data directory, or `/tmp`
/// when there is none.
pub open spec fn local_or_tmp(local: Option<Seq<char>>) -> Seq<char> {
    match local {
        Some(l) => l,
        None => "/tmp"@,
    }
}

/// The tracker's data directory: `track` below `local_or_tmp(local)`.
pub open spec fn data_dir_in(local: Option<Seq<char>>) -> Seq<char> {
    joined(local_or_tmp(local), "track"@)
}

/// The view of an optional path.
pub open spec fn opt_path(p: Option<String>) -> Option<Seq<char>> {
    match p {
        Some(l) => Some(l@),
        None => None,
    }
}

/// The data directory for the local data directory `local` (`None` when the user has
/// none).
pub fn data_dir_from(local: Option<String>) -> (r: String)
    ensures
        r@ == data_dir_in(opt_path(local)),
{
    match local {
        Some(l) => join_path(l.as_str(), "track"),
        None => join_path("/tmp", "track"),
    }
}

/// The tracker's data directory: `track` in the user's local data directory.
pub fn data_dir() -> (r: String)
    ensures
        exists|l: Option<Seq<char>>| r@ == data_dir_in(l),
{
    data_dir_from(local_data_dir())
}

/// The path of the database for the local data directory `local`: `track.db` in
/// `data_dir_from(local)`.
pub fn db_path_from(local: Option<String>) -> (r: String)
    ensures
        r@ == joined(data_dir_in(opt_path(local)), "track.db"@),
{
    let d = data_dir_from(local);
    join_path(d.as_str(), "track.db")
}

/// The path of the database in the data directory.
pub fn db_path() -> (r: String)
    ensures
        exists|l: Option<Seq<char>>| r@ == joined(data_dir_in(l), "track.db"@),
{
    db_path_from(local_data_dir())
}

/// The socket's path for the runtime directory `runtime`: `track.sock` in it, or
/// `/tmp/track.sock` when there is none.
pub open spec fn socket_in(runtime: Option<Seq<char>>) -> Seq<char> {
    match runtime {
        Some(r) => joined(r, "track.sock"@),
        None => "/tmp/track.sock"@,
    }
}

/// The daemon's socket path for the runtime directory `runtime` (`None` when the user
/// has none).
pub fn socket_path_from(runtime: Option<String>) -> (r: String)
    ensures
        r@ == socket_in(opt_path(runtime)),
{
    match runtime {
        Some(d) => join_path(d.as_str(), "track.sock"),
        None => "/tmp/track.sock".to_owned(),
    }
}

/// The path of the daemon's socket: `track.sock` in the user's runtime directory, or
/// `/tmp/track.sock`.
pub fn socket_path() -> (r: String)
    ensures
        exists|d: Option<Seq<char>>| r@ == socket_in(d),
{
    socket_path_from(runtime_dir())
}

/// The directories searched for desktop entry files, for the local data directory
/// `local`: the system's, then `applications` in `local` when there is one.
pub fn desktop_dirs_from(local: Option<String>) -> (r: Vec<String>)
    ensures
        r@.len() == (if local is Some { 2int } else { 1int }),
        r@[0]@ == "/usr/share/applications"@,
        local is Some ==> r@[1]@ == joined(local->0@, "applications"@),
{
    let mut dirs: Vec<String> = Vec::new();
    dirs.push("/usr/share/applications".to_owned());
    match local {
        Some(l) => {
            dirs.push(join_path(l.as_str(), "applications"));
        },
        None => {},
    }
    dirs
}

/// The directories searched for desktop entry files: the system's, then
/// `applications` in the user's local data directory when there is one.
pub fn desktop_dirs() -> (r: Vec<String>)
    ensures
        r@.len() >= 1,
        r@[0]@ == "/usr/share/applications"@,
        r@.len() <= 2,
        r@.len() == 2 ==> exists|l: Seq<char>| r@[1]@ == joined(l, "applications"@),
{
    desktop_dirs_from(local_data_dir())
}

} // verus!
