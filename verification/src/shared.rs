//! Small predicates shared by the launcher's screens and the game list.

use vstd::prelude::*;

use crate::text::{ascii_lower, lower_contains, lower_starts_with, occurs_in, trim, trim_str};

verus! {

/// A launch target that is a URI rather than a file: after trimming it is
/// non-empty and, ignoring ASCII case, holds `://` or starts with `mailto:`.
pub open spec fn is_uri_text(s: Seq<char>) -> bool {
    let t = trim(s);
    &&& t.len() > 0
    &&& (occurs_in("://"@, ascii_lower(t)) || "mailto:"@.is_prefix_of(ascii_lower(t)))
}

/// A Steam URI: after trimming it starts with `steam://`, ignoring ASCII case.
pub open spec fn is_steam_uri_text(s: Seq<char>) -> bool {
    "steam://"@.is_prefix_of(ascii_lower(trim(s)))
}

/// Whether `value` names a URI (`scheme://...` or `mailto:...`).
pub fn is_uri(value: &str) -> (b: bool)
    ensures
        b == is_uri_text(value@),
{
    let value = trim_str(value);
    if value.as_str().unicode_len() == 0 {
        return false;
    }
    lower_contains(value.as_str(), "://") || lower_starts_with(value.as_str(), "mailto:")
}

/// Whether `value` names a Steam URI (`steam://...`).
pub fn is_steam_uri(value: &str) -> (b: bool)
    ensures
        b == is_steam_uri_text(value@),
{
    let value = trim_str(value);
    lower_starts_with(value.as_str(), "steam://")
}

/// Whether launching is allowed. It always is: the directory is accepted for
/// the day the permission depends on a file in it again.
pub fn is_gate_open(app_dir: &str) -> (b: bool)
    ensures
        b,
{
    let _ = app_dir;
    true
}

/// Every Steam URI is a URI.
pub proof fn steam_uri_is_uri(s: Seq<char>)
    requires
        is_steam_uri_text(s),
    ensures
        is_uri_text(s),
{
    reveal_strlit("steam://");
    reveal_strlit("://");
    let l = ascii_lower(trim(s));
    assert(l.subrange(0, 8) == "steam://"@);
    assert(l[5] == ':' && l[6] == '/' && l[7] == '/') by {
        assert(l.subrange(0, 8)[5] == l[5]);
        assert(l.subrange(0, 8)[6] == l[6]);
        assert(l.subrange(0, 8)[7] == l[7]);
    }
    assert(l.subrange(5int, 5int + "://"@.len()) =~= "://"@);
}

} // verus!
