//! The persisted list of games and the operations on it: lookup, removal,
//! moves, reordering, icon and metadata changes, and the decisions that
//! adding and launching a game take.

use vstd::prelude::*;
use vstd::string::*;

use image::ImageEncoder;

use crate::drop_resolve::ResolvedDrop;
use crate::paths::{exists_on_disk, extension, join, parent, path_extension, path_join, path_parent, stem_or, file_stem};
use crate::shared::{is_uri, is_uri_text};
use crate::text::{
    ascii_lower, concat, join_strings, joined, lemma_trim_idempotent, lower_ends_with, same_text,
    texts, to_ascii_lowercase, trim, trim_str,
};

verus! {

/// One launcher entry.
#[derive(Debug, PartialEq, Eq)]
pub struct Game {
    pub id: String,
    pub name: String,
    pub path: String,
    pub icon: String,
    pub working_dir: String,
    pub launch_args: String,
}

impl Clone for Game {
    fn clone(&self) -> (r: Self)
        ensures
            r == *self,
    {
        Game {
            id: self.id.clone(),
            name: self.name.clone(),
            path: self.path.clone(),
            icon: self.icon.clone(),
            working_dir: self.working_dir.clone(),
            launch_args: self.launch_args.clone(),
        }
    }
}

/// Why an operation on the game list failed.
#[derive(Debug)]
pub enum GameStoreError {
    EmptyPath,
    FileNotFound(String),
    NotFound,
    EmptyLaunchPath,
    Shortcut(String),
    UriLaunchFailed(String),
    UriLaunchUnsupported,
    Io(String),
    Json(String),
    Image(String),
}

/// The game list with where it is stored.
#[derive(Debug)]
pub struct GameStore {
    pub config_path: String,
    pub icons_dir: String,
    pub games: Vec<Game>,
    pub startup_warning: Option<String>,
}

/// Index of the first game with the id `id`, or `games.len()` when none has it.
pub open spec fn position_of(games: Seq<Game>, id: Seq<char>) -> int
    decreases games.len(),
{
    if games.len() == 0 {
        0
    } else if games[0].id@ == id {
        0
    } else {
        1 + position_of(games.drop_first(), id)
    }
}

/// Some game has the id `id`.
pub open spec fn has_game(games: Seq<Game>, id: Seq<char>) -> bool {
    position_of(games, id) < games.len()
}

/// `games` with the game at `from` taken out and put back at `to`.
pub open spec fn moved(games: Seq<Game>, from: int, to: int) -> Seq<Game> {
    games.remove(from).insert(to, games[from])
}

pub proof fn lemma_position_of(games: Seq<Game>, id: Seq<char>)
    ensures
        0 <= position_of(games, id) <= games.len(),
        position_of(games, id) < games.len() ==> games[position_of(games, id)].id@ == id,
        forall|j: int| 0 <= j < position_of(games, id) ==> games[j].id@ != id,
    decreases games.len(),
{
    if games.len() > 0 && games[0].id@ != id {
        lemma_position_of(games.drop_first(), id);
        assert forall|j: int| 0 <= j < position_of(games, id) implies games[j].id@ != id by {
            if j > 0 {
                assert(games[j] == games.drop_first()[j - 1]);
            }
        }
    }
}

/// Position of the last id in `ids` equal to `id`, or `-1`.
pub open spec fn last_id_pos(ids: Seq<String>, id: Seq<char>) -> int
    decreases ids.len(),
{
    if ids.len() == 0 {
        -1
    } else if ids.last()@ == id {
        ids.len() - 1
    } else {
        last_id_pos(ids.drop_last(), id)
    }
}

/// The rank that reordering by `ids` gives the id `id`: its last position in
/// `ids`, and `ids.len()` (after all listed ids) when it is not listed.
pub open spec fn order_key(ids: Seq<String>, id: Seq<char>) -> int {
    if last_id_pos(ids, id) >= 0 {
        last_id_pos(ids, id)
    } else {
        ids.len() as int
    }
}

/// The games of rank `k`.
pub open spec fn rank_is(ids: Seq<String>, k: int) -> spec_fn(Game) -> bool {
    |g: Game| order_key(ids, g.id@) == k
}

/// The games of rank `k`, in their order in `games`.
pub open spec fn rank_group(games: Seq<Game>, ids: Seq<String>, k: int) -> Seq<Game> {
    games.filter(rank_is(ids, k))
}

/// The games of ranks `k..=ids.len()`, rank by rank.
pub open spec fn ranked_from(games: Seq<Game>, ids: Seq<String>, k: int) -> Seq<Game>
    decreases ids.len() + 1 - k,
{
    if k < 0 || k > ids.len() {
        Seq::empty()
    } else {
        rank_group(games, ids, k) + ranked_from(games, ids, k + 1)
    }
}

/// `games` reordered by `ids`: sorted by rank, games of equal rank in their
/// order in the list.
pub open spec fn reordered(games: Seq<Game>, ids: Seq<String>) -> Seq<Game> {
    ranked_from(games, ids, 0)
}

pub proof fn lemma_last_id_pos(ids: Seq<String>, id: Seq<char>)
    ensures
        -1 <= last_id_pos(ids, id) < ids.len(),
        last_id_pos(ids, id) >= 0 ==> ids[last_id_pos(ids, id)]@ == id,
    decreases ids.len(),
{
    if ids.len() > 0 && ids.last()@ != id {
        lemma_last_id_pos(ids.drop_last(), id);
    }
}

/// The rank that reordering by `ids` gives the id `id`.
fn order_key_of(ids: &[String], id: &str) -> (k: usize)
    ensures
        k == order_key(ids@, id@),
{
    let m = ids.len();
    let mut key: usize = m;
    let mut found = false;
    let mut j: usize = 0;
    assert(ids@.take(0) =~= Seq::<String>::empty());
    while j < m
        invariant
            m == ids@.len(),
            j <= m,
            found ==> key < j && last_id_pos(ids@.take(j as int), id@) == key,
            !found ==> key == m && last_id_pos(ids@.take(j as int), id@) == -1,
        decreases m - j,
    {
        assert(ids@.take(j + 1).drop_last() =~= ids@.take(j as int));
        assert(ids@.take(j + 1).last() == ids@[j as int]);
        if same_text(ids[j].as_str(), id) {
            key = j;
            found = true;
        }
        j = j + 1;
    }
    assert(ids@.take(m as int) =~= ids@);
    key
}

/// A decided icon change: the icon the game gets, the freshly copied file
/// to delete if the change is abandoned, and the old file to delete once
/// the change is kept.
#[derive(Debug, PartialEq, Eq)]
pub struct PreparedIconChange {
    pub next_icon: String,
    pub new_icon_to_cleanup: Option<String>,
    pub old_icon_to_delete: Option<String>,
}

/// The first step of an icon change: decided, or waiting for a copy of the
/// new icon file.
#[derive(Debug, PartialEq, Eq)]
pub enum IconChangeStep {
    Ready(PreparedIconChange),
    CopyNeeded { source: String },
}

/// What a name and an icon change replaced, to put back if saving fails.
#[derive(Debug)]
pub struct FieldUpdate {
    pub index: usize,
    pub previous_name: String,
    pub previous_icon: String,
}

/// A game before it gets an id and a copied icon.
#[derive(Debug, PartialEq, Eq)]
pub struct GameDraft {
    pub name: String,
    pub path: String,
    pub icon_source: String,
    pub working_dir: String,
    pub launch_args: String,
}

/// The first step of turning user input into a draft: done, or waiting for
/// a shortcut to be read or a file to be checked.
#[derive(Debug, PartialEq, Eq)]
pub enum GameInput {
    Ready(GameDraft),
    Shortcut { name: String, path: String, icon_source: String },
    LocalFile { name: String, path: String, icon_source: String },
}

/// How a game's icon file is brought into the icons directory.
#[derive(Debug, PartialEq, Eq)]
pub enum IconCopy {
    /// No icon: the source is blank, missing, or of a kind not shown.
    Skip,
    /// An `.ico` file, converted to PNG at `target`.
    ConvertIco { source: String, target: String },
    /// Any other shown kind, copied as it is to `target`.
    CopyFile { source: String, target: String },
}

/// How a game is started.
#[derive(Debug, PartialEq, Eq)]
pub enum LaunchPlan {
    /// A URI, handed to the system.
    OpenUri(String),
    /// A program, started in `working_dir` with `args` when there are any.
    Spawn { program: String, working_dir: Option<String>, args: Option<String> },
}

/// `old` should name `cur` for deletion exactly when `cur` is not empty.
pub open spec fn deletes(old: Option<String>, cur: Seq<char>) -> bool {
    if cur.len() == 0 {
        old is None
    } else {
        old matches Some(v) && v@ == cur
    }
}

/// The icon file that removing `icon` touches: the trimmed path, unless blank.
pub open spec fn icon_file_of(icon: Option<String>) -> Option<Seq<char>> {
    match icon {
        Some(p) => if trim(p@).len() > 0 {
            Some(trim(p@))
        } else {
            None
        },
        None => None,
    }
}

/// `name` trimmed, or `fallback` when that leaves nothing.
pub open spec fn chosen_name(name: Seq<char>, fallback: Seq<char>) -> Seq<char> {
    if trim(name).len() == 0 {
        fallback
    } else {
        trim(name)
    }
}

/// `g` with another icon.
pub open spec fn with_icon(g: Game, icon: String) -> Game {
    Game { icon, ..g }
}

/// `g` with another name and icon.
pub open spec fn with_meta(g: Game, name: String, icon: String) -> Game {
    Game { name, icon, ..g }
}

/// Lower-case hexadecimal digit.
pub open spec fn is_lower_hex(c: char) -> bool {
    ('0' <= c && c <= '9') || ('a' <= c && c <= 'f')
}

/// A UUID in its simple form: 32 lower-case hexadecimal digits.
pub open spec fn is_simple_uuid(s: Seq<char>) -> bool {
    s.len() == 32 && forall|i: int| 0 <= i < 32 ==> #[trigger] is_lower_hex(s[i])
}

/// The icon kinds the launcher shows, by extension with its dot.
pub open spec fn is_icon_extension(dotted: Seq<char>) -> bool {
    ||| dotted == ".png"@
    ||| dotted == ".gif"@
    ||| dotted == ".ppm"@
    ||| dotted == ".pgm"@
    ||| dotted == ".ico"@
}

/// The lower-cased extension of `p`, empty when it has none.
pub open spec fn lowered_extension(p: Seq<char>) -> Seq<char> {
    ascii_lower(
        match path_extension(p) {
            Some(e) => e,
            None => Seq::empty(),
        },
    )
}

/// Where a copied icon for `game_id` goes: `<game_id>-<suffix>.<ext>` in the
/// icons directory.
pub open spec fn icon_target(icons_dir: Seq<char>, game_id: Seq<char>, suffix: Seq<char>, ext: Seq<char>) -> Seq<char> {
    path_join(icons_dir, game_id + "-"@ + suffix + "."@ + ext)
}

/// What `Uuid::new_v4().simple().to_string()` gives: a random UUID in its
/// simple form. Trusted: uuid's `Simple` writes the 16 bytes as 32 lower-case
/// hexadecimal digits.
#[verifier::external_body]
fn new_game_id() -> (r: String)
    ensures
        is_simple_uuid(r@),
{
    uuid::Uuid::new_v4().simple().to_string()
}

/// What image 0.24 decodes from `bytes` read as an ICO file, as width,
/// height and RGBA8 pixels, or the decoder's error message.
pub uninterp spec fn ico_pixels(bytes: Seq<u8>) -> Result<(u32, u32, Seq<u8>), Seq<char>>;

/// What image 0.24's PNG encoder writes for RGBA8 `pixels` of the given
/// size, or its error message.
pub uninterp spec fn png_encoding(width: u32, height: u32, pixels: Seq<u8>) -> Result<Seq<u8>, Seq<char>>;

/// `image::load_from_memory_with_format(.., ImageFormat::Ico)` then
/// `to_rgba8`. Trusted: the result is the name `ico_pixels` applied to the
/// bytes, and an RGBA8 buffer holds four bytes per pixel.
#[verifier::external_body]
fn decode_ico(bytes: &[u8]) -> (r: Result<(u32, u32, Vec<u8>), String>)
    ensures
        match r {
            Ok((w, h, px)) => ico_pixels(bytes@) == Ok::<(u32, u32, Seq<u8>), Seq<char>>((w, h, px@))
                && px@.len() == 4 * w * h,
            Err(e) => ico_pixels(bytes@) == Err::<(u32, u32, Seq<u8>), Seq<char>>(e@),
        },
{
    match image::load_from_memory_with_format(bytes, image::ImageFormat::Ico) {
        Ok(img) => {
            let rgba = img.to_rgba8();
            Ok((rgba.width(), rgba.height(), rgba.into_raw()))
        },
        Err(e) => Err(e.to_string()),
    }
}

/// `PngEncoder::write_image` with `ColorType::Rgba8`. Trusted: the result is
/// the name `png_encoding` applied to the arguments; the encoder panics unless
/// the buffer holds four bytes per pixel, which `requires` rules out.
#[verifier::external_body]
fn encode_png(width: u32, height: u32, pixels: &[u8]) -> (r: Result<Vec<u8>, String>)
    requires
        pixels@.len() == 4 * width * height,
    ensures
        match r {
            Ok(v) => png_encoding(width, height, pixels@) == Ok::<Seq<u8>, Seq<char>>(v@),
            Err(e) => png_encoding(width, height, pixels@) == Err::<Seq<u8>, Seq<char>>(e@),
        },
{
    let mut out = Vec::new();
    match image::codecs::png::PngEncoder::new(&mut out).write_image(
        pixels,
        width,
        height,
        image::ColorType::Rgba8,
    ) {
        Ok(()) => Ok(out),
        Err(e) => Err(e.to_string()),
    }
}

/// Converts the bytes of an `.ico` file to a PNG file's bytes; a failure of
/// either step becomes `GameStoreError::Image` with its message.
pub fn convert_ico_to_png(bytes: &[u8]) -> (r: Result<Vec<u8>, GameStoreError>)
    ensures
        match ico_pixels(bytes@) {
            Err(e) => r matches Err(GameStoreError::Image(m)) && m@ == e,
            Ok((w, h, px)) => match png_encoding(w, h, px) {
                Ok(v) => r matches Ok(out) && out@ == v,
                Err(e) => r matches Err(GameStoreError::Image(m)) && m@ == e,
            },
        },
{
    match decode_ico(bytes) {
        Ok((w, h, px)) => match encode_png(w, h, px.as_slice()) {
            Ok(v) => Ok(v),
            Err(e) => Err(GameStoreError::Image(e)),
        },
        Err(e) => Err(GameStoreError::Image(e)),
    }
}

/// The trimmed text of `s`, or nothing when that is empty.
fn nonblank(s: &str) -> (r: Option<String>)
    ensures
        trim(s@).len() == 0 ==> r is None,
        trim(s@).len() > 0 ==> (r matches Some(v) && v@ == trim(s@)),
{
    let t = trim_str(s);
    if t.as_str().unicode_len() == 0 {
        None
    } else {
        Some(t)
    }
}

/// Completes an icon change once the new icon was copied to `copied_icon`:
/// the game gets the copy, the copy goes if the change is abandoned, and the
/// old icon goes once the change is kept.
pub fn complete_icon_change(current_icon: &str, copied_icon: String) -> (c: PreparedIconChange)
    ensures
        c.next_icon == copied_icon,
        c.new_icon_to_cleanup == Some(copied_icon),
        deletes(c.old_icon_to_delete, trim(current_icon@)),
{
    let current = trim_str(current_icon);
    proof {
        lemma_trim_idempotent(current_icon@);
    }
    PreparedIconChange {
        next_icon: copied_icon.clone(),
        new_icon_to_cleanup: Some(copied_icon),
        old_icon_to_delete: nonblank(current.as_str()),
    }
}

/// The icon file to delete for `icon_path`: the trimmed path, unless blank.
pub fn icon_file_to_remove(icon_path: &str) -> (r: Option<String>)
    ensures
        trim(icon_path@).len() == 0 ==> r is None,
        trim(icon_path@).len() > 0 ==> (r matches Some(v) && v@ == trim(icon_path@)),
{
    nonblank(icon_path)
}


/// `name` trimmed, or `fallback` when that leaves nothing.
pub fn choose_name(name: &str, fallback: &str) -> (r: String)
    ensures
        r@ == chosen_name(name@, fallback@),
{
    let trimmed = trim_str(name);
    if trimmed.as_str().unicode_len() == 0 {
        String::from_str(fallback)
    } else {
        trimmed
    }
}

/// The draft a resolved shortcut gives: the shortcut's target, name (unless
/// one is typed), icon (unless one is chosen), working directory and
/// arguments. A file target that is not on disk (`target_exists` false) is
/// refused.
pub fn shortcut_draft(name: &str, icon_source: String, resolved: ResolvedDrop, target_exists: bool) -> (r: Result<GameDraft, GameStoreError>)
    ensures
        !is_uri_text(resolved.target_path@) && !target_exists ==> (r matches Err(
            GameStoreError::FileNotFound(t),
        ) && t@ == resolved.target_path@),
        is_uri_text(resolved.target_path@) || target_exists ==> (r matches Ok(d) && {
            &&& d.name@ == chosen_name(name@, resolved.name@)
            &&& d.path@ == resolved.target_path@
            &&& d.icon_source@ == (if trim(icon_source@).len() == 0 {
                resolved.icon_source@
            } else {
                icon_source@
            })
            &&& d.working_dir@ == resolved.working_dir@
            &&& d.launch_args@ == resolved.launch_args@
        }),
{
    if !is_uri(resolved.target_path.as_str()) && !target_exists {
        return Err(GameStoreError::FileNotFound(resolved.target_path));
    }
    let icon_blank = trim_str(icon_source.as_str()).as_str().unicode_len() == 0;
    let resolved_icon = if icon_blank {
        resolved.icon_source
    } else {
        icon_source
    };
    Ok(
        GameDraft {
            name: choose_name(name, resolved.name.as_str()),
            path: resolved.target_path,
            icon_source: resolved_icon,
            working_dir: resolved.working_dir,
            launch_args: resolved.launch_args,
        },
    )
}

/// The draft a local file gives: named after its file stem (unless a name is
/// typed) and started in its parent directory. A file not on disk
/// (`exists` false) is refused.
pub fn file_draft(name: &str, path: String, icon_source: String, exists: bool) -> (r: Result<GameDraft, GameStoreError>)
    ensures
        !exists ==> (r matches Err(GameStoreError::FileNotFound(t)) && t@ == path@),
        exists ==> (r matches Ok(d) && {
            &&& d.name@ == chosen_name(name@, stem_or(path@, "Game"@))
            &&& d.path@ == path@
            &&& d.icon_source == icon_source
            &&& d.working_dir@ == (match path_parent(path@) {
                Some(p) => p,
                None => Seq::empty(),
            })
            &&& d.launch_args@.len() == 0
        }),
{
    if !exists {
        return Err(GameStoreError::FileNotFound(path));
    }
    let inferred = match file_stem(path.as_str()) {
        Some(stem) => stem,
        None => String::from_str("Game"),
    };
    let working_dir = match parent(path.as_str()) {
        Some(p) => p,
        None => String::new(),
    };
    Ok(
        GameDraft {
            name: choose_name(name, inferred.as_str()),
            path,
            icon_source,
            working_dir,
            launch_args: String::new(),
        },
    )
}

/// Where a game starts: its working directory when set and on disk
/// (`working_dir_exists`), else the directory of its program.
pub fn working_dir_choice(game: &Game, path: &str, working_dir_exists: bool) -> (r: Option<String>)
    ensures
        trim(game.working_dir@).len() > 0 && working_dir_exists ==> (r matches Some(w) && w@
            == trim(game.working_dir@)),
        !(trim(game.working_dir@).len() > 0 && working_dir_exists) ==> match path_parent(path@) {
            Some(p) => r matches Some(w) && w@ == p,
            None => r is None,
        },
{
    let working_dir = trim_str(game.working_dir.as_str());
    if working_dir.as_str().unicode_len() > 0 && working_dir_exists {
        return Some(working_dir);
    }
    parent(path)
}

/// Where the game starts: its working directory when set and found on disk,
/// else the directory of its program.
pub fn resolve_working_dir(game: &Game, path: &str) -> (r: Option<String>)
    ensures
        trim(game.working_dir@).len() == 0 ==> match path_parent(path@) {
            Some(p) => r matches Some(w) && w@ == p,
            None => r is None,
        },
        r matches Some(w) ==> w@ == trim(game.working_dir@) || path_parent(path@) == Some(w@),
        r is None ==> path_parent(path@) is None,
{
    let working_dir = trim_str(game.working_dir.as_str());
    let found = working_dir.as_str().unicode_len() > 0 && exists_on_disk(working_dir.as_str());
    working_dir_choice(game, path, found)
}

/// The starting plan for `game`: a blank path is refused, a URI is opened,
/// a missing file (`exists` false) is refused, anything else is started as a
/// program with the working directory `working_dir` and the trimmed
/// arguments, if any.
pub fn launch_plan_for(game: &Game, exists: bool, working_dir: Option<String>) -> (r: Result<LaunchPlan, GameStoreError>)
    ensures
        trim(game.path@).len() == 0 ==> (r matches Err(GameStoreError::EmptyLaunchPath)),
        trim(game.path@).len() > 0 && is_uri_text(game.path@) ==> (r matches Ok(LaunchPlan::OpenUri(u)) && u@ == trim(game.path@)),
        trim(game.path@).len() > 0 && !is_uri_text(game.path@) && !exists ==> (r matches Err(GameStoreError::FileNotFound(p)) && p@ == trim(game.path@)),
        trim(game.path@).len() > 0 && !is_uri_text(game.path@) && exists ==> (r matches Ok(LaunchPlan::Spawn { program, working_dir: w, args }) && {
            &&& program@ == trim(game.path@)
            &&& w == working_dir
            &&& (trim(game.launch_args@).len() == 0 ==> args is None)
            &&& (trim(game.launch_args@).len() > 0 ==> (args matches Some(a) && a@ == trim(game.launch_args@)))
        }),
{
    let path = trim_str(game.path.as_str());
    proof {
        lemma_trim_idempotent(game.path@);
    }
    if path.as_str().unicode_len() == 0 {
        return Err(GameStoreError::EmptyLaunchPath);
    }
    if is_uri(path.as_str()) {
        return Ok(LaunchPlan::OpenUri(path));
    }
    if !exists {
        return Err(GameStoreError::FileNotFound(path));
    }
    Ok(LaunchPlan::Spawn { program: path, working_dir, args: nonblank(game.launch_args.as_str()) })
}

impl GameStore {
    /// An empty list kept in `games.json`, with icons in `icons`, both in
    /// `app_dir`.
    pub fn new(app_dir: &str) -> (r: Self)
        ensures
            r.config_path@ == path_join(app_dir@, "games.json"@),
            r.icons_dir@ == path_join(app_dir@, "icons"@),
            r.games@.len() == 0,
            r.startup_warning is None,
    {
        GameStore {
            config_path: join(app_dir, "games.json"),
            icons_dir: join(app_dir, "icons"),
            games: Vec::new(),
            startup_warning: None,
        }
    }

    /// Records the warnings met while opening the list, joined by blank
    /// lines; no warnings leave nothing to report.
    pub fn set_startup_warnings(&mut self, warnings: &[String])
        ensures
            warnings@.len() == 0 ==> final(self).startup_warning is None,
            warnings@.len() > 0 ==> (final(self).startup_warning matches Some(w) && w@ == joined(
                texts(warnings@),
                "\n\n"@,
            )),
            final(self).games == old(self).games,
            final(self).config_path == old(self).config_path,
            final(self).icons_dir == old(self).icons_dir,
    {
        if warnings.len() == 0 {
            self.startup_warning = None;
        } else {
            self.startup_warning = Some(join_strings(warnings, "\n\n"));
        }
    }

    /// Decides an icon change from the current icon and the requested source:
    /// a blank source clears the icon, the current icon is kept as it is, and
    /// any other source has to be copied first.
    pub fn prepare_icon_change(current_icon: &str, icon_source: &str) -> (r: IconChangeStep)
        ensures
            trim(icon_source@).len() == 0 ==> (r matches IconChangeStep::Ready(c) && c.next_icon@.len()
                == 0 && c.new_icon_to_cleanup is None && deletes(
                c.old_icon_to_delete,
                trim(current_icon@),
            )),
            trim(icon_source@).len() > 0 && trim(icon_source@) == trim(current_icon@) ==> (r matches IconChangeStep::Ready(c)
                && c.next_icon@ == trim(current_icon@) && c.new_icon_to_cleanup is None
                && c.old_icon_to_delete is None),
            trim(icon_source@).len() > 0 && trim(icon_source@) != trim(current_icon@) ==> (r matches IconChangeStep::CopyNeeded {
                source,
            } && source@ == trim(icon_source@)),
    {
        let current = trim_str(current_icon);
        let source = trim_str(icon_source);
        proof {
            lemma_trim_idempotent(current_icon@);
        }
        if source.as_str().unicode_len() == 0 {
            return IconChangeStep::Ready(
                PreparedIconChange {
                    next_icon: String::new(),
                    new_icon_to_cleanup: None,
                    old_icon_to_delete: nonblank(current.as_str()),
                },
            );
        }
        if same_text(source.as_str(), current.as_str()) {
            return IconChangeStep::Ready(
                PreparedIconChange {
                    next_icon: current,
                    new_icon_to_cleanup: None,
                    old_icon_to_delete: None,
                },
            );
        }
        IconChangeStep::CopyNeeded { source }
    }

    /// The icon file to delete once `change` is kept: the old icon, unless blank.
    pub fn finalize_icon_change(change: &PreparedIconChange) -> (r: Option<String>)
        ensures
            match icon_file_of(change.old_icon_to_delete) {
                Some(p) => r matches Some(v) && v@ == p,
                None => r is None,
            },
    {
        match &change.old_icon_to_delete {
            Some(old_icon) => icon_file_to_remove(old_icon.as_str()),
            None => None,
        }
    }

    /// The icon file to delete when `change` is abandoned: the new copy, unless
    /// blank.
    pub fn rollback_icon_change(change: &PreparedIconChange) -> (r: Option<String>)
        ensures
            match icon_file_of(change.new_icon_to_cleanup) {
                Some(p) => r matches Some(v) && v@ == p,
                None => r is None,
            },
    {
        match &change.new_icon_to_cleanup {
            Some(new_icon) => icon_file_to_remove(new_icon.as_str()),
            None => None,
        }
    }

    /// Turns what the user typed into a draft, or into the step it waits for:
    /// a blank path is refused, a URI is ready at once (named `Link` unless a
    /// name is typed), a `.lnk` or `.url` path needs its shortcut read, and
    /// anything else needs the file checked.
    pub fn resolve_game_input(name: String, path: String, icon_source: String) -> (r: Result<GameInput, GameStoreError>)
        ensures
            trim(path@).len() == 0 ==> (r matches Err(GameStoreError::EmptyPath)),
            trim(path@).len() > 0 && is_uri_text(trim(path@)) ==> (r matches Ok(GameInput::Ready(d)) && {
                &&& d.name@ == chosen_name(name@, "Link"@)
                &&& d.path@ == trim(path@)
                &&& d.icon_source == icon_source
                &&& d.working_dir@.len() == 0
                &&& d.launch_args@.len() == 0
            }),
            trim(path@).len() > 0 && !is_uri_text(trim(path@)) && (".lnk"@.is_suffix_of(ascii_lower(trim(path@))) || ".url"@.is_suffix_of(ascii_lower(trim(path@)))) ==> (r matches Ok(GameInput::Shortcut { name: n, path: p, icon_source: i }) && n == name && p@ == trim(path@) && i == icon_source),
            trim(path@).len() > 0 && !is_uri_text(trim(path@)) && !(".lnk"@.is_suffix_of(ascii_lower(trim(path@))) || ".url"@.is_suffix_of(ascii_lower(trim(path@)))) ==> (r matches Ok(GameInput::LocalFile { name: n, path: p, icon_source: i }) && n == name && p@ == trim(path@) && i == icon_source),
    {
        let path = trim_str(path.as_str());
        if path.as_str().unicode_len() == 0 {
            return Err(GameStoreError::EmptyPath);
        }
        if is_uri(path.as_str()) {
            return Ok(
                GameInput::Ready(
                    GameDraft {
                        name: choose_name(name.as_str(), "Link"),
                        path,
                        icon_source,
                        working_dir: String::new(),
                        launch_args: String::new(),
                    },
                ),
            );
        }
        if lower_ends_with(path.as_str(), ".lnk") || lower_ends_with(path.as_str(), ".url") {
            return Ok(GameInput::Shortcut { name, path, icon_source });
        }
        Ok(GameInput::LocalFile { name, path, icon_source })
    }

    /// The draft a resolved shortcut gives, refusing a file target that is not
    /// on disk.
    pub fn draft_from_shortcut(name: &str, icon_source: String, resolved: ResolvedDrop) -> (r: Result<GameDraft, GameStoreError>)
        ensures
            is_uri_text(resolved.target_path@) ==> (r matches Ok(d) && d.path@ == resolved.target_path@ && d.name@ == chosen_name(name@, resolved.name@)),
            r matches Ok(d) ==> {
                &&& d.name@ == chosen_name(name@, resolved.name@)
                &&& d.path@ == resolved.target_path@
                &&& d.icon_source@ == (if trim(icon_source@).len() == 0 {
                    resolved.icon_source@
                } else {
                    icon_source@
                })
                &&& d.working_dir@ == resolved.working_dir@
                &&& d.launch_args@ == resolved.launch_args@
            },
            r matches Err(e) ==> (e matches GameStoreError::FileNotFound(t) && t@ == resolved.target_path@ && !is_uri_text(resolved.target_path@)),
    {
        let exists = if is_uri(resolved.target_path.as_str()) {
            true
        } else {
            exists_on_disk(resolved.target_path.as_str())
        };
        shortcut_draft(name, icon_source, resolved, exists)
    }

    /// The draft a local file gives, refusing a file that is not on disk.
    pub fn draft_from_file(name: &str, path: String, icon_source: String) -> (r: Result<GameDraft, GameStoreError>)
        ensures
            r matches Ok(d) ==> {
                &&& d.name@ == chosen_name(name@, stem_or(path@, "Game"@))
                &&& d.path@ == path@
                &&& d.icon_source == icon_source
                &&& d.working_dir@ == (match path_parent(path@) {
                    Some(p) => p,
                    None => Seq::empty(),
                })
                &&& d.launch_args@.len() == 0
            },
            r matches Err(e) ==> (e matches GameStoreError::FileNotFound(t) && t@ == path@),
    {
        let exists = exists_on_disk(path.as_str());
        file_draft(name, path, icon_source, exists)
    }

    /// Appends a game made of `id`, the draft and its copied `icon`.
    pub fn push_game(&mut self, id: String, draft: GameDraft, icon: String)
        ensures
            final(self).games@ == old(self).games@.push(
                Game {
                    id,
                    name: draft.name,
                    path: draft.path,
                    icon,
                    working_dir: draft.working_dir,
                    launch_args: draft.launch_args,
                },
            ),
            final(self).config_path == old(self).config_path,
            final(self).icons_dir == old(self).icons_dir,
            final(self).startup_warning == old(self).startup_warning,
    {
        let GameDraft { name, path, icon_source: _, working_dir, launch_args } = draft;
        self.games.push(Game { id, name, path, icon, working_dir, launch_args });
    }

    /// Takes the last game off the list, undoing `push_game`.
    pub fn pop_game(&mut self) -> (r: Option<Game>)
        ensures
            old(self).games@.len() == 0 ==> r is None && final(self).games@ == old(self).games@,
            old(self).games@.len() > 0 ==> r == Some(old(self).games@.last()) && final(self).games@ == old(self).games@.drop_last(),
            final(self).config_path == old(self).config_path,
            final(self).icons_dir == old(self).icons_dir,
            final(self).startup_warning == old(self).startup_warning,
    {
        self.games.pop()
    }

    /// Gives the first game with the id `game_id` the icon of `change`, and
    /// hands back what is needed to undo it.
    pub fn update_icon(&mut self, game_id: &str, change: &PreparedIconChange) -> (r: Result<FieldUpdate, GameStoreError>)
        ensures
            final(self).config_path == old(self).config_path,
            final(self).icons_dir == old(self).icons_dir,
            final(self).startup_warning == old(self).startup_warning,
            !has_game(old(self).games@, game_id@) ==> (r matches Err(GameStoreError::NotFound)
                && final(self).games@ == old(self).games@),
            has_game(old(self).games@, game_id@) ==> (r matches Ok(u) && {
                let k = position_of(old(self).games@, game_id@);
                &&& u.index == k
                &&& u.previous_name == old(self).games@[k].name
                &&& u.previous_icon == old(self).games@[k].icon
                &&& final(self).games@ == old(self).games@.update(k, with_icon(old(self).games@[k], change.next_icon))
            }),
    {
        let idx = match self.position(game_id) {
            Some(i) => i,
            None => {
                return Err(GameStoreError::NotFound);
            },
        };
        let mut game = self.games[idx].clone();
        let previous_name = game.name.clone();
        let previous_icon = game.icon.clone();
        game.icon = change.next_icon.clone();
        self.games.set(idx, game);
        Ok(FieldUpdate { index: idx, previous_name, previous_icon })
    }

    /// Gives the first game with the id `game_id` the name `name` and the icon
    /// of `change`, and hands back what is needed to undo it.
    pub fn update_game_meta(&mut self, game_id: &str, name: String, change: &PreparedIconChange) -> (r: Result<FieldUpdate, GameStoreError>)
        ensures
            final(self).config_path == old(self).config_path,
            final(self).icons_dir == old(self).icons_dir,
            final(self).startup_warning == old(self).startup_warning,
            !has_game(old(self).games@, game_id@) ==> (r matches Err(GameStoreError::NotFound)
                && final(self).games@ == old(self).games@),
            has_game(old(self).games@, game_id@) ==> (r matches Ok(u) && {
                let k = position_of(old(self).games@, game_id@);
                &&& u.index == k
                &&& u.previous_name == old(self).games@[k].name
                &&& u.previous_icon == old(self).games@[k].icon
                &&& final(self).games@ == old(self).games@.update(k, with_meta(old(self).games@[k], name, change.next_icon))
            }),
    {
        let idx = match self.position(game_id) {
            Some(i) => i,
            None => {
                return Err(GameStoreError::NotFound);
            },
        };
        let mut game = self.games[idx].clone();
        let previous_name = game.name.clone();
        let previous_icon = game.icon.clone();
        game.name = name;
        game.icon = change.next_icon.clone();
        self.games.set(idx, game);
        Ok(FieldUpdate { index: idx, previous_name, previous_icon })
    }

    /// Puts back the name and icon that `update` replaced.
    pub fn revert_update(&mut self, update: FieldUpdate)
        requires
            update.index < old(self).games@.len(),
        ensures
            final(self).games@ == old(self).games@.update(update.index as int, with_meta(old(self).games@[update.index as int], update.previous_name, update.previous_icon)),
            final(self).config_path == old(self).config_path,
            final(self).icons_dir == old(self).icons_dir,
            final(self).startup_warning == old(self).startup_warning,
    {
        let FieldUpdate { index, previous_name, previous_icon } = update;
        let mut game = self.games[index].clone();
        game.name = previous_name;
        game.icon = previous_icon;
        self.games.set(index, game);
    }

    /// The starting plan for the first game with the id `game_id`; whether its
    /// file and working directory are on disk is read at the call.
    pub fn plan_launch(&self, game_id: &str) -> (r: Result<LaunchPlan, GameStoreError>)
        ensures
            !has_game(self.games@, game_id@) ==> (r matches Err(GameStoreError::NotFound)),
            has_game(self.games@, game_id@) ==> ({
                let g = self.games@[position_of(self.games@, game_id@)];
                &&& trim(g.path@).len() == 0 ==> (r matches Err(GameStoreError::EmptyLaunchPath))
                &&& trim(g.path@).len() > 0 && is_uri_text(g.path@) ==> (r matches Ok(LaunchPlan::OpenUri(u)) && u@ == trim(g.path@))
                &&& trim(g.path@).len() > 0 && !is_uri_text(g.path@) ==> match r {
                    Ok(LaunchPlan::Spawn { program, working_dir, args }) => {
                        &&& program@ == trim(g.path@)
                        &&& (trim(g.launch_args@).len() == 0 ==> args is None)
                        &&& (trim(g.launch_args@).len() > 0 ==> (args matches Some(a) && a@ == trim(g.launch_args@)))
                        &&& (trim(g.working_dir@).len() == 0 ==> match path_parent(trim(g.path@)) {
                            Some(p) => working_dir matches Some(w) && w@ == p,
                            None => working_dir is None,
                        })
                        &&& (working_dir matches Some(w) ==> w@ == trim(g.working_dir@) || path_parent(trim(g.path@)) == Some(w@))
                        &&& (working_dir is None ==> path_parent(trim(g.path@)) is None)
                    },
                    Err(GameStoreError::FileNotFound(p)) => p@ == trim(g.path@),
                    _ => false,
                }
            }),
    {
        let game = match self.get(game_id) {
            Some(g) => g,
            None => {
                return Err(GameStoreError::NotFound);
            },
        };
        let path = trim_str(game.path.as_str());
        if path.as_str().unicode_len() == 0 || is_uri(path.as_str()) {
            return launch_plan_for(game, false, None);
        }
        if !exists_on_disk(path.as_str()) {
            return launch_plan_for(game, false, None);
        }
        let working_dir = resolve_working_dir(game, path.as_str());
        launch_plan_for(game, true, working_dir)
    }

    /// How the icon `icon_source` of the game `game_id` is brought in, given
    /// whether the trimmed source is on disk and the unique `suffix` of its
    /// new file name: blank, missing and unshown kinds are skipped, `.ico`
    /// files are converted to PNG, other kinds are copied.
    pub fn icon_copy_plan(&self, icon_source: &str, source_exists: bool, game_id: &str, suffix: &str) -> (r: IconCopy)
        ensures
            trim(icon_source@).len() == 0 || !source_exists || !is_icon_extension("."@ + lowered_extension(trim(icon_source@))) ==> r is Skip,
            trim(icon_source@).len() > 0 && source_exists && lowered_extension(trim(icon_source@)) == "ico"@ ==> (r matches IconCopy::ConvertIco { source, target } && source@ == trim(icon_source@) && target@ == icon_target(self.icons_dir@, game_id@, suffix@, "png"@)),
            trim(icon_source@).len() > 0 && source_exists && is_icon_extension("."@ + lowered_extension(trim(icon_source@))) && lowered_extension(trim(icon_source@)) != "ico"@ ==> (r matches IconCopy::CopyFile { source, target } && source@ == trim(icon_source@) && target@ == icon_target(self.icons_dir@, game_id@, suffix@, lowered_extension(trim(icon_source@)))),
    {
        let source = trim_str(icon_source);
        if source.as_str().unicode_len() == 0 || !source_exists {
            return IconCopy::Skip;
        }
        let ext_raw = match extension(source.as_str()) {
            Some(e) => e,
            None => String::new(),
        };
        let ext = to_ascii_lowercase(ext_raw.as_str());
        let dotted = concat(".", ext.as_str());
        proof {
            reveal_strlit(".");
            reveal_strlit("ico");
            reveal_strlit(".ico");
            assert(dotted@ =~= "."@ + lowered_extension(source@));
            assert("."@ + "ico"@ =~= ".ico"@);
        }
        let allowed = same_text(dotted.as_str(), ".png") || same_text(dotted.as_str(), ".gif")
            || same_text(dotted.as_str(), ".ppm") || same_text(dotted.as_str(), ".pgm")
            || same_text(dotted.as_str(), ".ico");
        if !allowed {
            return IconCopy::Skip;
        }
        let stem = concat(game_id, "-");
        let stem = concat(stem.as_str(), suffix);
        let stem = concat(stem.as_str(), ".");
        if same_text(ext.as_str(), "ico") {
            let file = concat(stem.as_str(), "png");
            let target = join(self.icons_dir.as_str(), file.as_str());
            return IconCopy::ConvertIco { source, target };
        }
        let file = concat(stem.as_str(), ext.as_str());
        let target = join(self.icons_dir.as_str(), file.as_str());
        IconCopy::CopyFile { source, target }
    }

    /// How the icon `icon_source` of the game `game_id` is brought in; whether
    /// the source is on disk is read at the call and the new file name gets a
    /// fresh random suffix.
    pub fn plan_icon_copy(&self, icon_source: &str, game_id: &str) -> (r: IconCopy)
        ensures
            trim(icon_source@).len() == 0 || !is_icon_extension("."@ + lowered_extension(trim(icon_source@))) ==> r is Skip,
            r matches IconCopy::ConvertIco { source, target } ==> source@ == trim(icon_source@) && lowered_extension(trim(icon_source@)) == "ico"@ && exists|sfx: Seq<char>| is_simple_uuid(sfx) && target@ == icon_target(self.icons_dir@, game_id@, sfx, "png"@),
            r matches IconCopy::CopyFile { source, target } ==> source@ == trim(icon_source@) && is_icon_extension("."@ + lowered_extension(trim(icon_source@))) && lowered_extension(trim(icon_source@)) != "ico"@ && exists|sfx: Seq<char>| is_simple_uuid(sfx) && target@ == icon_target(self.icons_dir@, game_id@, sfx, lowered_extension(trim(icon_source@))),
    {
        let source = trim_str(icon_source);
        let found = source.as_str().unicode_len() > 0 && exists_on_disk(source.as_str());
        let suffix = new_game_id();
        self.icon_copy_plan(icon_source, found, game_id, suffix.as_str())
    }

    /// A fresh id for a new game and how its icon `icon_source` is brought
    /// in under that id.
    pub fn plan_new_game(&self, icon_source: &str) -> (r: (String, IconCopy))
        ensures
            is_simple_uuid(r.0@),
            trim(icon_source@).len() == 0 || !is_icon_extension("."@ + lowered_extension(trim(icon_source@))) ==> r.1 is Skip,
            r.1 matches IconCopy::ConvertIco { source, target } ==> source@ == trim(icon_source@) && lowered_extension(trim(icon_source@)) == "ico"@ && exists|sfx: Seq<char>| is_simple_uuid(sfx) && target@ == icon_target(self.icons_dir@, r.0@, sfx, "png"@),
            r.1 matches IconCopy::CopyFile { source, target } ==> source@ == trim(icon_source@) && is_icon_extension("."@ + lowered_extension(trim(icon_source@))) && lowered_extension(trim(icon_source@)) != "ico"@ && exists|sfx: Seq<char>| is_simple_uuid(sfx) && target@ == icon_target(self.icons_dir@, r.0@, sfx, lowered_extension(trim(icon_source@))),
    {
        let id = new_game_id();
        let plan = self.plan_icon_copy(icon_source, id.as_str());
        (id, plan)
    }

    /// Index of the first game with the id `game_id`.
    pub fn position(&self, game_id: &str) -> (r: Option<usize>)
        ensures
            match r {
                Some(i) => i == position_of(self.games@, game_id@) && i < self.games@.len(),
                None => !has_game(self.games@, game_id@),
            },
    {
        let n = self.games.len();
        let mut i: usize = 0;
        proof {
            lemma_position_of(self.games@, game_id@);
        }
        assert(self.games@.skip(0) =~= self.games@);
        while i < n
            invariant
                n == self.games@.len(),
                i <= n,
                position_of(self.games@, game_id@) == i + position_of(
                    self.games@.skip(i as int),
                    game_id@,
                ),
            decreases n - i,
        {
            if same_text(self.games[i].id.as_str(), game_id) {
                return Some(i);
            }
            assert(self.games@.skip(i as int).drop_first() =~= self.games@.skip(i + 1));
            i = i + 1;
        }
        None
    }

    /// The first game with the id `game_id`.
    pub fn get(&self, game_id: &str) -> (r: Option<&Game>)
        ensures
            match r {
                Some(g) => has_game(self.games@, game_id@) && *g == self.games@[position_of(
                    self.games@,
                    game_id@,
                )],
                None => !has_game(self.games@, game_id@),
            },
    {
        match self.position(game_id) {
            Some(i) => Some(&self.games[i]),
            None => None,
        }
    }

    /// Takes the first game with the id `game_id` out of the list and hands
    /// it back; the list is unchanged when no game has that id.
    pub fn remove(&mut self, game_id: &str) -> (r: Result<Game, GameStoreError>)
        ensures
            final(self).config_path == old(self).config_path,
            final(self).icons_dir == old(self).icons_dir,
            final(self).startup_warning == old(self).startup_warning,
            !has_game(old(self).games@, game_id@) ==> (r matches Err(GameStoreError::NotFound)
                && final(self).games@ == old(self).games@),
            has_game(old(self).games@, game_id@) ==> (r matches Ok(g) && g == old(
                self,
            ).games@[position_of(old(self).games@, game_id@)] && final(self).games@ == old(
                self,
            ).games@.remove(position_of(old(self).games@, game_id@))),
    {
        match self.position(game_id) {
            Some(i) => Ok(self.games.remove(i)),
            None => Err(GameStoreError::NotFound),
        }
    }

    /// Moves the first game with the id `game_id` by `delta` places. Nothing
    /// moves when the new place lies outside the list; `Ok(true)` tells that
    /// the list changed.
    pub fn move_game(&mut self, game_id: &str, delta: isize) -> (r: Result<bool, GameStoreError>)
        ensures
            final(self).config_path == old(self).config_path,
            final(self).icons_dir == old(self).icons_dir,
            final(self).startup_warning == old(self).startup_warning,
            !has_game(old(self).games@, game_id@) ==> (r matches Err(GameStoreError::NotFound)
                && final(self).games@ == old(self).games@),
            has_game(old(self).games@, game_id@) ==> ({
                let k = position_of(old(self).games@, game_id@);
                if 0 <= k + delta < old(self).games@.len() {
                    r matches Ok(true) && final(self).games@ == moved(
                        old(self).games@,
                        k,
                        k + delta,
                    )
                } else {
                    r matches Ok(false) && final(self).games@ == old(self).games@
                }
            }),
    {
        let idx = match self.position(game_id) {
            Some(i) => i,
            None => {
                return Err(GameStoreError::NotFound);
            },
        };
        let len = self.games.len();
        let new_idx: i128 = idx as i128 + delta as i128;
        if new_idx < 0 || new_idx >= len as i128 {
            return Ok(false);
        }
        let new_idx = new_idx as usize;
        let item = self.games.remove(idx);
        self.games.insert(new_idx, item);
        Ok(true)
    }

    /// Moves the first game with the id `game_id` to `new_index`, or to the
    /// end when `new_index` lies past it; `Ok(true)` tells that the list was
    /// rewritten (it is not when the game already stands at `new_index`).
    pub fn move_game_to(&mut self, game_id: &str, new_index: usize) -> (r: Result<
        bool,
        GameStoreError,
    >)
        ensures
            final(self).config_path == old(self).config_path,
            final(self).icons_dir == old(self).icons_dir,
            final(self).startup_warning == old(self).startup_warning,
            !has_game(old(self).games@, game_id@) ==> (r matches Err(GameStoreError::NotFound)
                && final(self).games@ == old(self).games@),
            has_game(old(self).games@, game_id@) ==> ({
                let k = position_of(old(self).games@, game_id@);
                let last = old(self).games@.len() - 1;
                if k == new_index {
                    r matches Ok(false) && final(self).games@ == old(self).games@
                } else {
                    r matches Ok(true) && final(self).games@ == moved(
                        old(self).games@,
                        k,
                        if new_index < last {
                            new_index as int
                        } else {
                            last
                        },
                    )
                }
            }),
    {
        let idx = match self.position(game_id) {
            Some(i) => i,
            None => {
                return Err(GameStoreError::NotFound);
            },
        };
        if idx == new_index || self.games.len() == 0 {
            return Ok(false);
        }
        let max_index = self.games.len() - 1;
        let new_index = if new_index < max_index {
            new_index
        } else {
            max_index
        };
        let item = self.games.remove(idx);
        self.games.insert(new_index, item);
        Ok(true)
    }

    /// Reorders the games by `ordered_ids`: each game takes the place of its
    /// id's last occurrence there, games whose ids are not listed go last, and
    /// games of equal place keep their order.
    pub fn reorder(&mut self, ordered_ids: &[String])
        ensures
            final(self).games@ == reordered(old(self).games@, ordered_ids@),
            final(self).config_path == old(self).config_path,
            final(self).icons_dir == old(self).icons_dir,
            final(self).startup_warning == old(self).startup_warning,
    {
        let n = self.games.len();
        let m = ordered_ids.len();
        let ghost games = self.games@;
        let ghost ids = ordered_ids@;
        let mut keys: Vec<usize> = Vec::new();
        let mut i: usize = 0;
        while i < n
            invariant
                n == games.len(),
                games == self.games@,
                ids == ordered_ids@,
                i <= n,
                keys@.len() == i,
                forall|q: int| 0 <= q < i ==> keys@[q] == order_key(ids, #[trigger] games[q].id@),
            decreases n - i,
        {
            keys.push(order_key_of(ordered_ids, self.games[i].id.as_str()));
            i = i + 1;
        }
        let mut out: Vec<Game> = Vec::new();
        let mut k: usize = 0;
        assert(out@ + ranked_from(games, ids, 0) =~= reordered(games, ids));
        loop
            invariant_except_break
                k <= m,
                out@ + ranked_from(games, ids, k as int) == reordered(games, ids),
            invariant
                n == games.len(),
                m == ids.len(),
                games == self.games@,
                ids == ordered_ids@,
                keys@.len() == n,
                forall|q: int| 0 <= q < n ==> keys@[q] == order_key(ids, #[trigger] games[q].id@),
            ensures
                out@ == reordered(games, ids),
            decreases m - k,
        {
            let ghost before = out@;
            let mut j: usize = 0;
            assert(games.take(0).filter(rank_is(ids, k as int)) =~= Seq::<Game>::empty()) by {
                reveal(Seq::filter);
            }
            assert(before + games.take(0).filter(rank_is(ids, k as int)) =~= before);
            while j < n
                invariant
                    n == games.len(),
                    games == self.games@,
                    keys@.len() == n,
                    forall|q: int|
                        0 <= q < n ==> keys@[q] == order_key(ids, #[trigger] games[q].id@),
                    j <= n,
                    out@ == before + games.take(j as int).filter(rank_is(ids, k as int)),
                decreases n - j,
            {
                proof {
                    games.take(j as int).lemma_filter_push(games[j as int], rank_is(ids, k as int));
                    assert(games.take(j + 1) =~= games.take(j as int).push(games[j as int]));
                }
                if keys[j] == k {
                    out.push(self.games[j].clone());
                    assert(out@ =~= before + games.take(j + 1).filter(rank_is(ids, k as int)));
                } else {
                    assert(out@ =~= before + games.take(j + 1).filter(rank_is(ids, k as int)));
                }
                j = j + 1;
            }
            assert(games.take(n as int) =~= games);
            assert(ranked_from(games, ids, k as int) == rank_group(games, ids, k as int)
                + ranked_from(games, ids, k + 1));
            assert(out@ + ranked_from(games, ids, k + 1) =~= before + ranked_from(
                games,
                ids,
                k as int,
            ));
            if k == m {
                assert(ranked_from(games, ids, k + 1) =~= Seq::<Game>::empty());
                assert(out@ =~= out@ + ranked_from(games, ids, k + 1));
                break ;
            }
            k = k + 1;
        }
        self.games = out;
    }

    /// How a path is marked in the edit form: blank is missing, a URI is
    /// present, and a file is present when it is on disk (`exists`, asked of
    /// the trimmed path).
    pub fn path_mark(path: &str, exists: bool) -> (b: bool)
        ensures
            b == (trim(path@).len() > 0 && (is_uri_text(path@) || exists)),
    {
        proof {
            lemma_trim_idempotent(path@);
        }
        let trimmed = trim_str(path);
        if trimmed.as_str().unicode_len() == 0 {
            return false;
        }
        if is_uri(trimmed.as_str()) {
            return true;
        }
        exists
    }

    /// Whether the edit form shows `path` as present: blank is missing, a
    /// URI is present, and a file is present when it is found on disk.
    pub fn path_exists_for_display(path: &str) -> (b: bool)
        ensures
            trim(path@).len() == 0 ==> !b,
            trim(path@).len() > 0 && is_uri_text(path@) ==> b,
    {
        let trimmed = trim_str(path);
        let exists = trimmed.as_str().unicode_len() > 0 && exists_on_disk(trimmed.as_str());
        Self::path_mark(path, exists)
    }

    /// Hands out the startup warning once; later calls give nothing.
    pub fn take_startup_warning(&mut self) -> (r: Option<String>)
        ensures
            r == old(self).startup_warning,
            final(self).startup_warning is None,
            final(self).games == old(self).games,
            final(self).config_path == old(self).config_path,
            final(self).icons_dir == old(self).icons_dir,
    {
        let mut w: Option<String> = None;
        std::mem::swap(&mut w, &mut self.startup_warning);
        w
    }
}

} // verus!
