//! The file name part of a path, as the transfers and the web share use it.

use vstd::prelude::*;

verus! {

/// The name used when a path has no usable file name.
pub const FALLBACK_FILE_NAME: &'static str = "meshdrop-file";

/// What `std::path::Path::file_name` gives for a path given as text: the
/// final normal component, if there is one. Which component that is follows
/// the path rules of the platform the program is built for.
pub uninterp spec fn std_file_name(path: Seq<char>) -> Option<Seq<char>>;

/// Whether `s` is a plain file name on every platform: non-empty, holding no
/// separator (`/`, `\\`) and no drive mark (`:`), and not `.` or `..`.
pub open spec fn is_plain_name(s: Seq<char>) -> bool {
    &&& s.len() > 0
    &&& !s.contains('/')
    &&& !s.contains('\\')
    &&& !s.contains(':')
    &&& s != "."@
    &&& s != ".."@
}

/// `std::path::Path::file_name`, on a path given as text; its result is
/// named by `std_file_name`. What holds on every platform: a name, when
/// there is one, is a non-empty piece of the path, holds no `/`, and is
/// neither `.` nor `..` (those are never normal components); and a path that
/// is already a plain file name is its own file name.
#[verifier::external_body]
pub(crate) fn path_file_name(path: &str) -> (name: Option<String>)
    ensures
        opt_view(name) == std_file_name(path@),
        name matches Some(n) ==> {
            &&& n@.len() > 0
            &&& !n@.contains('/')
            &&& n@ != ".."@
            &&& n@ != "."@
            &&& crate::text::contains_spec(path@, n@)
        },
        is_plain_name(path@) ==> opt_view(name) == Some(path@),
{
    std::path::Path::new(path).file_name().map(|n| n.to_string_lossy().into_owned())
}

/// The name kept for a found file name: the name itself when it is
/// non-empty, else the fallback name.
pub open spec fn safe_name_spec(found: Option<Seq<char>>) -> Seq<char> {
    match found {
        Some(n) => if n.len() > 0 {
            n
        } else {
            FALLBACK_FILE_NAME@
        },
        None => FALLBACK_FILE_NAME@,
    }
}

/// The plain value of an optional string.
pub open spec fn opt_view(o: Option<String>) -> Option<Seq<char>> {
    match o {
        Some(s) => Some(s@),
        None => None,
    }
}

/// The name kept for what `Path::file_name` found.
pub fn choose_file_name(found: Option<String>) -> (name: String)
    ensures
        name@ == safe_name_spec(opt_view(found)),
{
    match found {
        Some(n) => if !n.as_str().is_empty() {
            n
        } else {
            crate::text::string_from(FALLBACK_FILE_NAME)
        },
        None => crate::text::string_from(FALLBACK_FILE_NAME),
    }
}

/// The file name under which something addressed by `path` is stored or
/// offered: the file name `Path::file_name` finds, else the fallback name.
/// It is never empty, never holds `/`, and is never `.` or `..`; a path that
/// is a plain file name is kept as it is.
pub fn safe_file_name(path: &str) -> (name: String)
    ensures
        name@ == safe_name_spec(std_file_name(path@)),
        name@.len() > 0,
        !name@.contains('/'),
        name@ != ".."@,
        name@ != "."@,
        name@ == FALLBACK_FILE_NAME@ || crate::text::contains_spec(path@, name@),
        is_plain_name(path@) ==> name@ == path@,
{
    let found = path_file_name(path);
    let name = choose_file_name(found);
    proof {
        lemma_fallback_name();
    }
    name
}

/// The fallback name is a plain file name.
pub proof fn lemma_fallback_name()
    ensures
        FALLBACK_FILE_NAME@.len() > 0,
        !FALLBACK_FILE_NAME@.contains('/'),
        FALLBACK_FILE_NAME@ != ".."@,
        FALLBACK_FILE_NAME@ != "."@,
{
    reveal_strlit("meshdrop-file");
    reveal_strlit("..");
    reveal_strlit(".");
    assert(FALLBACK_FILE_NAME@.len() == 13);
    if FALLBACK_FILE_NAME@.contains('/') {
        let i = choose|i: int| 0 <= i < FALLBACK_FILE_NAME@.len() && FALLBACK_FILE_NAME@[i] == '/';
        assert(FALLBACK_FILE_NAME@[i] == '/');
    }
}

} // verus!
