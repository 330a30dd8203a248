//! Paths as the camino crate reads and joins them.

use vstd::prelude::*;

verus! {

/// The path that camino's `Utf8Path::join` makes of `dir` and `name`.
pub uninterp spec fn utf8_path_join(dir: Seq<char>, name: Seq<char>) -> Seq<char>;

/// The extension that camino's `Utf8Path::extension` reads from `path`.
pub uninterp spec fn utf8_path_extension(path: Seq<char>) -> Option<Seq<char>>;

/// camino's `Utf8Path::join`: `name` adjoined to `dir` (see
/// `PathBuf::push`). Claimed: the result is the same for the same two
/// texts; what it is, is left to the name `utf8_path_join`.
#[verifier::external_body]
pub(crate) fn join_path(dir: &str, name: &str) -> (r: String)
    ensures
        r@ == utf8_path_join(dir@, name@),
{
    camino::Utf8Path::new(dir).join(name).into_string()
}

/// camino's `Utf8Path::extension`: what follows the last dot of the file
/// name, if any. Claimed: the result is the same for the same text; what it
/// is, is left to the name `utf8_path_extension`.
#[verifier::external_body]
pub(crate) fn path_extension(path: &str) -> (r: Option<String>)
    ensures
        r matches Some(e) ==> utf8_path_extension(path@) == Some(e@),
        r is None ==> utf8_path_extension(path@) is None,
{
    match camino::Utf8Path::new(path).extension() {
        Some(e) => Some(e.to_string()),
        None => None,
    }
}

/// The extension of `path`, or `fallback` where it has none.
pub open spec fn extension_or(path: Seq<char>, fallback: Seq<char>) -> Seq<char> {
    match utf8_path_extension(path) {
        Some(e) => e,
        None => fallback,
    }
}

/// The extension of a path, or `fallback` where it has none.
pub fn path_extension_or(path: &str, fallback: &str) -> (r: String)
    ensures
        r@ == extension_or(path@, fallback@),
{
    match path_extension(path) {
        Some(e) => e,
        None => {
            let mut r = String::new();
            crate::text::push_str(&mut r, fallback);
            assert(r@ =~= fallback@);
            r
        },
    }
}

} // verus!
