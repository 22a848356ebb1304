//! The focused window as the trackers report it.
use vstd::prelude::*;
use crate::paths::{file_name_of, path_stem, stem_and_extension};
use crate::text::{all_ascii, ascii_lowered, chars_of, lower_of, str_lower, string_of};

verus! {

/// A focused window: application id, window title, process id and executable path,
/// seen at a Unix time.
pub struct FocusEvent {
    pub app_id: String,
    pub title: String,
    pub pid: i64,
    pub path: String,
    pub timestamp: i64,
}

/// The application id of a Windows executable: its file stem in lower case, empty for
/// an empty path.
pub open spec fn windows_app_id(path: Seq<char>) -> Seq<char> {
    if path.len() == 0 {
        Seq::empty()
    } else {
        match path_stem(path, true) {
            Some(s) => str_lower(s),
            None => Seq::empty(),
        }
    }
}

/// The application id of a Windows executable path, e.g. `C:\Apps\Code.exe` gives `code`.
pub fn app_id_from_path(path: &str) -> (r: String)
    ensures
        r@ == windows_app_id(path@),
        path@.len() > 0 ==> (path_stem(path@, true) matches Some(st) ==> (all_ascii(st) ==> ascii_lowered(st, r@))),
{
    let p = chars_of(path);
    if p.len() == 0 {
        return String::new();
    }
    match file_name_of(&p, true) {
        Some(n) => {
            let (stem, _) = stem_and_extension(&n);
            string_of(&lower_of(&stem))
        },
        None => String::new(),
    }
}

} // verus!
