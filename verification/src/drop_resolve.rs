//! Turning a dropped or typed path into what the launcher shows and starts:
//! a display name, a launch target and, for shortcuts, an icon source, a
//! working directory and launch arguments.

use vstd::prelude::*;
use vstd::string::*;

use crate::paths::{file_stem, is_absolute, join, path_is_absolute, path_join, stem_or};
use crate::shared::{is_steam_uri, is_steam_uri_text, is_uri, is_uri_text};
use crate::text::{
    after_first, after_first_char, after_last, after_last_char, ascii_lower, before_first,
    before_first_char, concat, ends_with, first_index, lemma_first_index_bounds,
    lower_starts_with, find_char, to_lowercase, trim, trim_char, trim_matches_char, trim_str,
    unicode_lower,
};

verus! {

/// A resolved launch entry.
#[derive(Debug, Clone, PartialEq, Eq)]
pub struct ResolvedDrop {
    pub name: String,
    pub target_path: String,
    pub icon_source: String,
    pub working_dir: String,
    pub launch_args: String,
}

/// What resolving a path gives: an entry, or the kind of shortcut file whose
/// contents are needed to finish.
#[derive(Debug, PartialEq, Eq)]
pub enum DropResolution {
    /// The path resolved on its own (a URI or an executable).
    Resolved(ResolvedDrop),
    /// A Windows shell link (`.lnk`): its fields are needed, see `resolve_lnk`.
    ShellLink,
    /// An Internet shortcut (`.url`): its text is needed, see `resolve_url_shortcut`.
    UrlShortcut,
}

/// The fields of a Windows shell link that the launcher reads.
#[derive(Debug)]
pub struct ShellLinkFields {
    pub link_target: Option<String>,
    pub icon_location: Option<String>,
    pub working_dir: Option<String>,
    pub arguments: Option<String>,
}

/// The display name of a dropped URI: `Steam` or `Link`, a space, and the
/// text after the last `/`.
pub open spec fn uri_entry_name(s: Seq<char>) -> Seq<char> {
    (if is_steam_uri_text(s) {
        "Steam"@
    } else {
        "Link"@
    }) + " "@ + after_last(s, '/')
}

/// The Unicode lower-case form of `s` ends with `suffix`.
pub open spec fn has_suffix(s: Seq<char>, suffix: Seq<char>) -> bool {
    suffix.is_suffix_of(unicode_lower(s))
}

/// An entry that holds only a name and a target.
pub open spec fn is_plain_entry(d: ResolvedDrop, name: Seq<char>, target: Seq<char>) -> bool {
    &&& d.name@ == name
    &&& d.target_path@ == target
    &&& d.icon_source@.len() == 0
    &&& d.working_dir@.len() == 0
    &&& d.launch_args@.len() == 0
}

/// `s`, trimmed, or the empty text when there is none.
pub open spec fn trimmed_or_empty(s: Option<String>) -> Seq<char> {
    match s {
        Some(v) => trim(v@),
        None => Seq::empty(),
    }
}

/// The link names a target that is not blank.
pub open spec fn has_target(link: ShellLinkFields) -> bool {
    match link.link_target {
        Some(t) => trim(t@).len() > 0,
        None => false,
    }
}

/// The icon file named by a shell link's icon location `path,index`:
/// the part before the first comma, trimmed, without surrounding quotes.
pub open spec fn icon_file_of_location(loc: Seq<char>) -> Seq<char> {
    trim_char(trim(before_first(loc, ',')), '"')
}

fn empty_string() -> (r: String)
    ensures
        r@.len() == 0,
{
    String::new()
}

fn plain_entry(name: String, target: String) -> (d: ResolvedDrop)
    ensures
        is_plain_entry(d, name@, target@),
{
    ResolvedDrop {
        name,
        target_path: target,
        icon_source: empty_string(),
        working_dir: empty_string(),
        launch_args: empty_string(),
    }
}

fn string_or(s: Option<String>, default: &str) -> (r: String)
    ensures
        r@ == (match s {
            Some(v) => v@,
            None => default@,
        }),
{
    match s {
        Some(v) => v,
        None => String::from_str(default),
    }
}

/// Resolves a dropped path. A URI resolves to an entry named after its last
/// segment; an `.exe` to an entry named after its file stem; `.lnk` and `.url`
/// shortcuts ask for their contents; anything else is refused.
pub fn resolve_drop_path(dropped: &str) -> (r: Result<DropResolution, String>)
    ensures
        is_uri_text(dropped@) ==> (r matches Ok(DropResolution::Resolved(d)) && is_plain_entry(
            d,
            uri_entry_name(dropped@),
            dropped@,
        )),
        !is_uri_text(dropped@) && has_suffix(dropped@, ".lnk"@) ==> (r matches Ok(
            DropResolution::ShellLink,
        )),
        !is_uri_text(dropped@) && !has_suffix(dropped@, ".lnk"@) && has_suffix(dropped@, ".url"@)
            ==> (r matches Ok(DropResolution::UrlShortcut)),
        !is_uri_text(dropped@) && !has_suffix(dropped@, ".lnk"@) && !has_suffix(dropped@, ".url"@)
            && has_suffix(dropped@, ".exe"@) ==> (r matches Ok(DropResolution::Resolved(d))
            && is_plain_entry(d, stem_or(dropped@, "Game"@), dropped@)),
        !is_uri_text(dropped@) && !has_suffix(dropped@, ".lnk"@) && !has_suffix(dropped@, ".url"@)
            && !has_suffix(dropped@, ".exe"@) ==> (r matches Err(e) && e@
            == "unsupported file type"@),
{
    let lower = to_lowercase(dropped);
    if is_uri(dropped) {
        let tail = after_last_char(dropped, '/');
        let prefix = if is_steam_uri(dropped) {
            "Steam "
        } else {
            "Link "
        };
        let name = concat(prefix, tail.as_str());
        proof {
            reveal_strlit("Steam ");
            reveal_strlit("Steam");
            reveal_strlit("Link ");
            reveal_strlit("Link");
            reveal_strlit(" ");
            assert(name@ =~= uri_entry_name(dropped@));
        }
        return Ok(DropResolution::Resolved(plain_entry(name, String::from_str(dropped))));
    }
    if ends_with(lower.as_str(), ".lnk") {
        return Ok(DropResolution::ShellLink);
    }
    if ends_with(lower.as_str(), ".url") {
        return Ok(DropResolution::UrlShortcut);
    }
    if ends_with(lower.as_str(), ".exe") {
        let name = string_or(file_stem(dropped), "Game");
        return Ok(DropResolution::Resolved(plain_entry(name, String::from_str(dropped))));
    }
    Err(String::from_str("unsupported file type"))
}

fn trimmed_opt(s: Option<String>) -> (r: String)
    ensures
        r@ == trimmed_or_empty(s),
{
    match s {
        Some(v) => trim_str(v.as_str()),
        None => empty_string(),
    }
}

/// Finishes resolving the shell link at `path` from its fields. The entry
/// is named after the link's file stem; a link without a target, or with
/// only whitespace there, is refused.
pub fn resolve_lnk(path: &str, link: ShellLinkFields) -> (r: Result<ResolvedDrop, String>)
    ensures
        has_target(link) ==> (r matches Ok(d) && {
            &&& d.name@ == stem_or(path@, "Shortcut"@)
            &&& d.target_path@ == link.link_target->0@
            &&& d.icon_source@ == (match link.icon_location {
                Some(loc) => icon_file_of_location(loc@),
                None => Seq::empty(),
            })
            &&& d.working_dir@ == trimmed_or_empty(link.working_dir)
            &&& d.launch_args@ == trimmed_or_empty(link.arguments)
        }),
        !has_target(link) ==> (r matches Err(e) && e@ == "shortcut has no resolved target"@),
{
    let ShellLinkFields { link_target, icon_location, working_dir, arguments } = link;
    let target = match link_target {
        Some(t) => {
            let t_trimmed = trim_str(t.as_str());
            if t_trimmed.as_str().unicode_len() == 0 {
                return Err(String::from_str("shortcut has no resolved target"));
            }
            t
        },
        None => {
            return Err(String::from_str("shortcut has no resolved target"));
        },
    };
    let name = string_or(file_stem(path), "Shortcut");
    let icon_source = match icon_location {
        Some(loc) => {
            let first = before_first_char(loc.as_str(), ',');
            let first = trim_str(first.as_str());
            trim_matches_char(first.as_str(), '"')
        },
        None => empty_string(),
    };
    Ok(
        ResolvedDrop {
            name,
            target_path: target,
            icon_source,
            working_dir: trimmed_opt(working_dir),
            launch_args: trimmed_opt(arguments),
        },
    )
}


/// The value after the first `=` of a `key=value` line, trimmed (empty when
/// the line has no `=`).
pub open spec fn line_value(line: Seq<char>) -> Seq<char> {
    match after_first(line, '=') {
        Some(v) => trim(v),
        None => Seq::empty(),
    }
}

/// How one line of an Internet shortcut updates the URL and the icon file
/// read so far: `URL=` and `IconFile=` lines (any ASCII case, surrounding
/// whitespace allowed) set them; the icon file loses surrounding quotes.
pub open spec fn url_file_line(line: Seq<char>, url: Seq<char>, icon: Seq<char>) -> (
    Seq<char>,
    Seq<char>,
) {
    let key = ascii_lower(trim(line));
    if "url="@.is_prefix_of(key) {
        (line_value(line), icon)
    } else if "iconfile="@.is_prefix_of(key) {
        (url, trim_char(line_value(line), '"'))
    } else {
        (url, icon)
    }
}

/// The URL and icon file that the lines of `s` leave, starting from `url`
/// and `icon`. Lines end at `\n`; the last `URL=` and `IconFile=` lines win.
pub open spec fn scan_url_file(s: Seq<char>, url: Seq<char>, icon: Seq<char>) -> (
    Seq<char>,
    Seq<char>,
)
    decreases s.len(),
{
    let k = first_index(s, '\n');
    let next = url_file_line(s.take(k), url, icon);
    if 0 <= k < s.len() {
        scan_url_file(s.skip(k + 1), next.0, next.1)
    } else {
        next
    }
}

/// The URL that an Internet shortcut's text `s` names.
pub open spec fn url_file_url(s: Seq<char>) -> Seq<char> {
    scan_url_file(s, Seq::empty(), Seq::empty()).0
}

/// The icon file that an Internet shortcut's text `s` names.
pub open spec fn url_file_icon(s: Seq<char>) -> Seq<char> {
    scan_url_file(s, Seq::empty(), Seq::empty()).1
}

fn value_after_eq(line: &str) -> (r: String)
    ensures
        r@ == line_value(line@),
{
    match after_first_char(line, '=') {
        Some(v) => trim_str(v.as_str()),
        None => empty_string(),
    }
}

/// Finishes resolving the Internet shortcut at `path` from its text `raw`.
/// The entry is named after the file stem and targets the URL it names; a
/// shortcut without a URL is refused.
pub fn resolve_url_shortcut(path: &str, raw: &str) -> (r: Result<ResolvedDrop, String>)
    ensures
        url_file_url(raw@).len() == 0 ==> (r matches Err(e) && e@ == "no URL= in "@ + path@),
        url_file_url(raw@).len() > 0 ==> (r matches Ok(d) && {
            &&& d.name@ == stem_or(path@, "Link"@)
            &&& d.target_path@ == url_file_url(raw@)
            &&& d.icon_source@ == url_file_icon(raw@)
            &&& d.working_dir@.len() == 0
            &&& d.launch_args@.len() == 0
        }),
{
    let mut url = empty_string();
    let mut icon = empty_string();
    let mut rest = String::from_str(raw);
    assert(url@ =~= Seq::<char>::empty());
    assert(icon@ =~= Seq::<char>::empty());
    loop
        invariant
            scan_url_file(raw@, Seq::empty(), Seq::empty()) == scan_url_file(
                rest@,
                url@,
                icon@,
            ),
        ensures
            scan_url_file(raw@, Seq::empty(), Seq::empty()) == (url@, icon@),
        decreases rest@.len(),
    {
        let n = rest.as_str().unicode_len();
        let k = find_char(rest.as_str(), '\n');
        proof {
            lemma_first_index_bounds(rest@, '\n');
        }
        let line = String::from_str(rest.as_str().substring_char(0, k));
        assert(line@ =~= rest@.take(k as int));
        let key = trim_str(line.as_str());
        if lower_starts_with(key.as_str(), "url=") {
            url = value_after_eq(line.as_str());
        } else if lower_starts_with(key.as_str(), "iconfile=") {
            let v = value_after_eq(line.as_str());
            icon = trim_matches_char(v.as_str(), '"');
        }
        if k < n {
            let next = String::from_str(rest.as_str().substring_char(k + 1, n));
            assert(next@ =~= rest@.skip(k + 1));
            rest = next;
        } else {
            break ;
        }
    }
    if url.as_str().unicode_len() == 0 {
        return Err(concat("no URL= in ", path));
    }
    let name = string_or(file_stem(path), "Link");
    Ok(
        ResolvedDrop {
            name,
            target_path: url,
            icon_source: icon,
            working_dir: empty_string(),
            launch_args: empty_string(),
        },
    )
}

/// Where the launcher looks for an icon to preview: the trimmed icon path
/// itself when absolute, else that path under the configuration directory.
pub fn normalize_icon_path_for_preview(icon_path: &str, config_parent: &str) -> (r: String)
    ensures
        path_is_absolute(trim(icon_path@)) ==> r@ == trim(icon_path@),
        !path_is_absolute(trim(icon_path@)) ==> r@ == path_join(config_parent@, trim(icon_path@)),
{
    let p = trim_str(icon_path);
    if is_absolute(p.as_str()) {
        p
    } else {
        join(config_parent, p.as_str())
    }
}

} // verus!
