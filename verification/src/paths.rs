//! The parts of `std::path` that the launcher's rules read. A path is held
//! as text; how it splits into parts follows the target's path rules, which
//! the functions named below stand for.

use vstd::prelude::*;

verus! {

/// What `Path::file_stem` gives for the path `p`: the file name without its
/// final extension, or nothing when the path has no file name.
pub uninterp spec fn path_file_stem(p: Seq<char>) -> Option<Seq<char>>;

/// What `Path::extension` gives for the path `p`.
pub uninterp spec fn path_extension(p: Seq<char>) -> Option<Seq<char>>;

/// What `Path::parent` gives for the path `p`, as text.
pub uninterp spec fn path_parent(p: Seq<char>) -> Option<Seq<char>>;

/// What `Path::join` gives for `base` and `part`, as text.
pub uninterp spec fn path_join(base: Seq<char>, part: Seq<char>) -> Seq<char>;

/// What `Path::is_absolute` says of the path `p`.
pub uninterp spec fn path_is_absolute(p: Seq<char>) -> bool;

/// The file stem of `p`, or `default` when it has none.
pub open spec fn stem_or(p: Seq<char>, default: Seq<char>) -> Seq<char> {
    match path_file_stem(p) {
        Some(v) => v,
        None => default,
    }
}

/// `Path::file_stem`, read back as text. Trusted: the result is the name
/// `path_file_stem` applied to the path; the stem of a `&str` path is valid
/// text, so the conversion back to `str` always succeeds.
#[verifier::external_body]
pub(crate) fn file_stem(p: &str) -> (r: Option<String>)
    ensures
        match r {
            Some(v) => path_file_stem(p@) == Some(v@),
            None => path_file_stem(p@) is None,
        },
{
    std::path::Path::new(p).file_stem().and_then(|s| s.to_str()).map(|s| s.to_string())
}

/// `Path::extension`, read back as text. Trusted: the result is the name
/// `path_extension` applied to the path.
#[verifier::external_body]
pub(crate) fn extension(p: &str) -> (r: Option<String>)
    ensures
        match r {
            Some(v) => path_extension(p@) == Some(v@),
            None => path_extension(p@) is None,
        },
{
    std::path::Path::new(p).extension().and_then(|s| s.to_str()).map(|s| s.to_string())
}

/// `Path::parent`, read back as text. Trusted: the result is the name
/// `path_parent` applied to the path.
#[verifier::external_body]
pub(crate) fn parent(p: &str) -> (r: Option<String>)
    ensures
        match r {
            Some(v) => path_parent(p@) == Some(v@),
            None => path_parent(p@) is None,
        },
{
    std::path::Path::new(p).parent().map(|q| q.to_string_lossy().to_string())
}

/// `Path::join`, read back as text. Trusted: the result is the name
/// `path_join` applied to both arguments.
#[verifier::external_body]
pub(crate) fn join(base: &str, part: &str) -> (r: String)
    ensures
        r@ == path_join(base@, part@),
{
    std::path::Path::new(base).join(part).to_string_lossy().to_string()
}

/// `Path::is_absolute`. Trusted: the result is the name `path_is_absolute`
/// applied to the path.
#[verifier::external_body]
pub(crate) fn is_absolute(p: &str) -> (r: bool)
    ensures
        r == path_is_absolute(p@),
{
    std::path::Path::new(p).is_absolute()
}

/// `Path::exists`. The answer depends on the disk at the moment of the call,
/// so nothing is stated of it.
#[verifier::external_body]
pub(crate) fn exists_on_disk(p: &str) -> (r: bool) {
    std::path::Path::new(p).exists()
}

} // verus!
