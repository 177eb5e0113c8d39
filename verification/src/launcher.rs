//! The launcher window's decisions: which games are selected, how a drag
//! reorders the list, which dialog is open and what confirming it asks for.
//! The window itself draws this state and performs the file and process
//! work that the decisions ask for.

use vstd::prelude::*;
use vstd::string::*;

use crate::drop_resolve::ResolvedDrop;
use crate::game_store::{has_game, moved, position_of, Game, GameStore};
use crate::store_laws::{distinct_ids, moved_game_is_found_at_target};
use crate::paths::exists_on_disk;
use crate::shared::{is_uri, is_uri_text};
use crate::text::{concat, join_strings, joined, same_text, texts, trim, trim_str};

verus! {

broadcast use vstd::seq_lib::group_seq_properties;

/// How the game list is shown.
#[derive(Clone, Copy, Debug, PartialEq, Eq, Structural)]
pub enum ViewMode {
    List,
    Tiles,
}

/// The ids of the selected games, each held once.
#[derive(Debug)]
pub struct Selection {
    ids: Vec<String>,
}

impl View for Selection {
    type V = Set<Seq<char>>;

    closed spec fn view(&self) -> Set<Seq<char>> {
        texts(self.ids@).to_set()
    }
}

impl Selection {
    #[verifier::type_invariant]
    closed spec fn held_once(self) -> bool {
        texts(self.ids@).no_duplicates()
    }

    /// Nothing selected.
    pub fn new() -> (r: Self)
        ensures
            r@ == Set::<Seq<char>>::empty(),
    {
        let r = Selection { ids: Vec::new() };
        assert(texts(r.ids@).to_set() =~= Set::<Seq<char>>::empty());
        r
    }

    /// Where `id` stands in the held ids.
    fn index_of(&self, id: &str) -> (r: Option<usize>)
        ensures
            match r {
                Some(i) => i < self.ids@.len() && self.ids@[i as int]@ == id@,
                None => !self@.contains(id@),
            },
    {
        let n = self.ids.len();
        let mut i: usize = 0;
        while i < n
            invariant
                n == self.ids@.len(),
                i <= n,
                forall|q: int| 0 <= q < i ==> #[trigger] self.ids@[q]@ != id@,
            decreases n - i,
        {
            if same_text(self.ids[i].as_str(), id) {
                return Some(i);
            }
            i = i + 1;
        }
        assert(!texts(self.ids@).contains(id@)) by {
            if texts(self.ids@).contains(id@) {
                let q = choose|q: int| 0 <= q < texts(self.ids@).len() && texts(self.ids@)[q] == id@;
                assert(self.ids@[q]@ == id@);
            }
        }
        None
    }

    /// Whether `id` is selected.
    pub fn contains(&self, id: &str) -> (r: bool)
        ensures
            r == self@.contains(id@),
    {
        match self.index_of(id) {
            Some(i) => {
                assert(texts(self.ids@)[i as int] == id@);
                true
            },
            None => false,
        }
    }

    /// How many games are selected.
    pub fn len(&self) -> (r: usize)
        ensures
            r == self@.len(),
    {
        proof {
            use_type_invariant(self);
            texts(self.ids@).unique_seq_to_set();
        }
        self.ids.len()
    }

    /// Selects nothing.
    pub fn clear(&mut self)
        ensures
            final(self)@ == Set::<Seq<char>>::empty(),
    {
        self.ids = Vec::new();
        assert(texts(self.ids@).to_set() =~= Set::<Seq<char>>::empty());
    }

    /// Adds `id` to the selection.
    pub fn insert(&mut self, id: String)
        ensures
            final(self)@ == old(self)@.insert(id@),
    {
        proof {
            use_type_invariant(&*self);
        }
        if self.contains(id.as_str()) {
            assert(old(self)@.insert(id@) =~= old(self)@);
            return;
        }
        let ghost before = self.ids@;
        let mut ids: Vec<String> = Vec::new();
        std::mem::swap(&mut ids, &mut self.ids);
        ids.push(id);
        proof {
            assert(texts(ids@) =~= texts(before).push(id@));
            assert(!texts(before).contains(id@));
            assert(texts(ids@).no_duplicates()) by {
                assert forall|a: int, b: int|
                    0 <= a < texts(ids@).len() && 0 <= b < texts(ids@).len() && a != b implies texts(ids@)[a] != texts(ids@)[b] by {
                    if a == before.len() as int {
                        assert(texts(before)[b] != id@) by {
                            if texts(before)[b] == id@ {
                                assert(texts(before).contains(id@));
                            }
                        }
                    } else if b == before.len() as int {
                        assert(texts(before)[a] != id@) by {
                            if texts(before)[a] == id@ {
                                assert(texts(before).contains(id@));
                            }
                        }
                    }
                }
            }
        }
        self.ids = ids;
        proof {
            assert(texts(self.ids@) =~= texts(before).push(id@));
            assert(!texts(before).contains(id@));
        }
    }

    /// Takes `id` out of the selection.
    pub fn remove(&mut self, id: &str)
        ensures
            final(self)@ == old(self)@.remove(id@),
    {
        proof {
            use_type_invariant(&*self);
        }
        match self.index_of(id) {
            Some(i) => {
                let ghost before = texts(self.ids@);
                let mut ids: Vec<String> = Vec::new();
                std::mem::swap(&mut ids, &mut self.ids);
                ids.remove(i);
                proof {
                    let after = texts(ids@);
                    assert(after =~= before.remove(i as int));
                    assert(after.no_duplicates()) by {
                        assert forall|a: int, b: int|
                            0 <= a < after.len() && 0 <= b < after.len() && a != b implies after[a] != after[b] by {
                            let sa = if a < i { a } else { a + 1 };
                            let sb = if b < i { b } else { b + 1 };
                            assert(after[a] == before[sa]);
                            assert(after[b] == before[sb]);
                        }
                    }
                }
                self.ids = ids;
                proof {
                    let after = texts(self.ids@);
                    assert(after =~= before.remove(i as int));
                    assert(before.no_duplicates());
                    assert(before[i as int] == id@);
                    assert forall|x: Seq<char>| after.contains(x) implies old(self)@.remove(
                        id@,
                    ).contains(x) by {
                        let q = choose|q: int| 0 <= q < after.len() && after[q] == x;
                        let sq = if q < i { q } else { q + 1 };
                        assert(before[sq] == x);
                        assert(sq != i);
                        assert(before.contains(x));
                    }
                    assert forall|x: Seq<char>| old(self)@.remove(id@).contains(x) implies after.contains(x) by {
                        assert(before.contains(x));
                        let q = choose|q: int| 0 <= q < before.len() && before[q] == x;
                        assert(q != i);
                        if q < i {
                            assert(after[q] == x);
                        } else {
                            assert(after[q - 1] == x);
                        }
                    }
                    assert(after.to_set() =~= old(self)@.remove(id@));
                }
            },
            None => {
                assert(old(self)@.remove(id@) =~= old(self)@);
            },
        }
    }

    /// The selected game when exactly one is selected.
    pub fn only(&self) -> (r: Option<String>)
        ensures
            (r is Some) == (self@.len() == 1),
            r matches Some(id) ==> self@ == Set::<Seq<char>>::empty().insert(id@),
    {
        proof {
            use_type_invariant(self);
            texts(self.ids@).unique_seq_to_set();
        }
        if self.ids.len() == 1 {
            assert(texts(self.ids@) =~= seq![self.ids@[0]@]);
            assert(texts(self.ids@).to_set() =~= Set::<Seq<char>>::empty().insert(self.ids@[0]@));
            Some(self.ids[0].clone())
        } else {
            None
        }
    }

    /// The selected ids, each once.
    pub fn to_vec(&self) -> (r: Vec<String>)
        ensures
            texts(r@).to_set() == self@,
            texts(r@).no_duplicates(),
    {
        proof {
            use_type_invariant(self);
        }
        self.ids.clone()
    }
}


/// A drag of a game over the list. It turns active once the pointer has moved
/// far enough; `hover_id` is the game under the pointer.
#[derive(Debug, PartialEq, Eq)]
pub struct DragState {
    pub source_id: String,
    pub hover_id: Option<String>,
    pub is_active: bool,
}

/// One row of the dialog that adds several games at once.
#[derive(Debug, PartialEq, Eq)]
pub struct BatchRow {
    pub enabled: bool,
    pub name: String,
    pub target_path: String,
    pub icon_source: String,
}

impl Clone for BatchRow {
    fn clone(&self) -> (r: Self)
        ensures
            r == *self,
    {
        BatchRow {
            enabled: self.enabled,
            name: self.name.clone(),
            target_path: self.target_path.clone(),
            icon_source: self.icon_source.clone(),
        }
    }
}

/// The dialog over the list, if any.
#[derive(Debug, PartialEq, Eq)]
pub enum Modal {
    Closed,
    Alert(String),
    ConfirmDelete { ids: Vec<String> },
    AddManual { name: String, path: String, icon: String },
    Edit { id: String, name: String, icon_path: String },
    Batch { rows: Vec<BatchRow> },
}

/// Why launching is refused.
#[derive(Clone, Copy, Debug, PartialEq, Eq, Structural)]
pub enum LaunchRefusal {
    GateClosed,
    NotExactlyOne,
    GameNotFound,
    EmptyPath,
    FileMissing,
}

/// Why the edit dialog does not open.
#[derive(Clone, Copy, Debug, PartialEq, Eq, Structural)]
pub enum EditRefusal {
    NotExactlyOne,
    GameNotFound,
}

/// What adding the enabled rows of the batch dialog comes to.
#[derive(Clone, Copy, Debug, PartialEq, Eq, Structural)]
pub enum BatchOutcome {
    /// No row was enabled.
    NothingSelected,
    /// Some rows failed; `added` rows were added.
    SomeFailed { added: usize },
    /// No row failed, and none was added.
    NoneAdded,
    /// Every enabled row was added.
    AllAdded,
}

/// What adding the enabled rows of the batch dialog comes to, from the
/// number of enabled rows, of rows added and of failures.
pub fn batch_outcome(selected: usize, added: usize, failures: usize) -> (r: BatchOutcome)
    ensures
        selected == 0 ==> r == BatchOutcome::NothingSelected,
        selected > 0 && failures > 0 ==> r == (BatchOutcome::SomeFailed { added }),
        selected > 0 && failures == 0 && added == 0 ==> r == BatchOutcome::NoneAdded,
        selected > 0 && failures == 0 && added > 0 ==> r == BatchOutcome::AllAdded,
{
    if selected == 0 {
        BatchOutcome::NothingSelected
    } else if failures > 0 {
        BatchOutcome::SomeFailed { added }
    } else if added == 0 {
        BatchOutcome::NoneAdded
    } else {
        BatchOutcome::AllAdded
    }
}

/// A press on `id` is the second click of a double click: in the list view,
/// on the game clicked last, less than 450 ms after that click.
pub fn is_double_click(view_mode: ViewMode, last_click_id: Option<&str>, id: &str, elapsed_ms: u64) -> (r: bool)
    ensures
        r == (view_mode == ViewMode::List && (last_click_id matches Some(prev) && prev@ == id@) && elapsed_ms < 450),
{
    match last_click_id {
        Some(prev) => view_mode == ViewMode::List && same_text(prev, id) && elapsed_ms < 450,
        None => false,
    }
}

/// The text of a tile: the first twelve characters, with `...` after them
/// when the name is longer.
pub open spec fn tile_name(value: Seq<char>) -> Seq<char> {
    if value.len() > 12 {
        value.take(12) + "..."@
    } else {
        value
    }
}

/// The text of a tile: the first twelve characters, with `...` after them
/// when the name is longer.
pub fn truncate_tile_name(value: &str) -> (r: String)
    ensures
        r@ == tile_name(value@),
{
    let n = value.unicode_len();
    if n > 12 {
        let head = value.substring_char(0, 12);
        concat(head, "...")
    } else {
        String::from_str(value)
    }
}

/// A tile's text is never longer than fifteen characters, and a name of at
/// most twelve characters is shown whole.
pub proof fn tile_name_is_short(value: Seq<char>)
    ensures
        tile_name(value).len() <= 15,
        value.len() <= 12 ==> tile_name(value) == value,
        value.len() > 12 ==> value.take(12).is_prefix_of(tile_name(value)),
{
    reveal_strlit("...");
}

/// The batch rows for resolved entries, all enabled.
pub open spec fn rows_for(resolved: Seq<ResolvedDrop>) -> Seq<BatchRow> {
    resolved.map_values(
        |d: ResolvedDrop|
            BatchRow {
                enabled: true,
                name: d.name,
                target_path: d.target_path,
                icon_source: d.icon_source,
            },
    )
}

/// The batch rows for resolved entries, all enabled.
pub fn batch_rows(resolved: &[ResolvedDrop]) -> (r: Vec<BatchRow>)
    ensures
        r@ == rows_for(resolved@),
{
    let n = resolved.len();
    let mut rows: Vec<BatchRow> = Vec::new();
    let mut i: usize = 0;
    while i < n
        invariant
            n == resolved@.len(),
            i <= n,
            rows@ == rows_for(resolved@.take(i as int)),
        decreases n - i,
    {
        let d = &resolved[i];
        rows.push(
            BatchRow {
                enabled: true,
                name: d.name.clone(),
                target_path: d.target_path.clone(),
                icon_source: d.icon_source.clone(),
            },
        );
        assert(resolved@.take(i + 1) =~= resolved@.take(i as int).push(resolved@[i as int]));
        assert(rows@ =~= rows_for(resolved@.take(i + 1)));
        i = i + 1;
    }
    assert(resolved@.take(n as int) =~= resolved@);
    rows
}


/// The launcher window's state that decisions read and change.
#[derive(Debug)]
pub struct LauncherState {
    pub view_mode: ViewMode,
    pub selection: Selection,
    pub drag: Option<DragState>,
    pub modal: Modal,
}

/// `a` and `b` differ at most in their dialog.
pub open spec fn same_but_modal(a: LauncherState, b: LauncherState) -> bool {
    &&& a.view_mode == b.view_mode
    &&& a.selection == b.selection
    &&& a.drag == b.drag
}

/// The drag is active and hovers over `id`, which is not the dragged game.
pub open spec fn drag_targets(drag: Option<DragState>, id: Seq<char>) -> bool {
    drag matches Some(d) && d.is_active && d.source_id@ != id && (d.hover_id matches Some(h) && h@
        == id)
}

/// The drag is active and drags `id`.
pub open spec fn drag_sources(drag: Option<DragState>, id: Seq<char>) -> bool {
    drag matches Some(d) && d.is_active && d.source_id@ == id
}

/// The move that releasing the drag asks for: the dragged game's id and the
/// index of the game it was dropped on.
pub open spec fn drag_move(drag: Option<DragState>, games: Seq<Game>) -> Option<(Seq<char>, int)> {
    match drag {
        Some(d) => if d.is_active {
            match d.hover_id {
                Some(t) => if t@ != d.source_id@ && has_game(games, t@) {
                    Some((d.source_id@, position_of(games, t@)))
                } else {
                    None
                },
                None => None,
            }
        } else {
            None
        },
        None => None,
    }
}

/// The rules for starting the one selected game: launching must be allowed,
/// exactly one game selected and known, its path not blank, and a file path
/// on disk (`file_exists`).
pub open spec fn launch_rules(
    selection: Set<Seq<char>>,
    gate_open: bool,
    games: Seq<Game>,
    file_exists: bool,
    r: Result<String, LaunchRefusal>,
) -> bool {
    if !gate_open {
        r == Err::<String, LaunchRefusal>(LaunchRefusal::GateClosed)
    } else if selection.len() != 1 {
        r == Err::<String, LaunchRefusal>(LaunchRefusal::NotExactlyOne)
    } else {
        forall|id: Seq<char>| #[trigger]
            selection.contains(id) ==> match r {
                Ok(x) => x@ == id && has_game(games, id) && trim(
                    games[position_of(games, id)].path@,
                ).len() > 0 && (is_uri_text(games[position_of(games, id)].path@) || file_exists),
                Err(LaunchRefusal::GameNotFound) => !has_game(games, id),
                Err(LaunchRefusal::EmptyPath) => has_game(games, id) && trim(
                    games[position_of(games, id)].path@,
                ).len() == 0,
                Err(LaunchRefusal::FileMissing) => has_game(games, id) && trim(
                    games[position_of(games, id)].path@,
                ).len() > 0 && !is_uri_text(games[position_of(games, id)].path@) && !file_exists,
                _ => false,
            }
    }
}

impl LauncherState {
    /// The window as it opens: the list view, nothing selected, no drag, and
    /// the startup warnings (if any) shown together.
    pub fn new(startup_warnings: &[String]) -> (r: Self)
        ensures
            r.view_mode == ViewMode::List,
            r.selection@ == Set::<Seq<char>>::empty(),
            r.drag is None,
            startup_warnings@.len() == 0 ==> r.modal is Closed,
            startup_warnings@.len() > 0 ==> (r.modal matches Modal::Alert(m) && m@ == joined(
                texts(startup_warnings@),
                "\n\n"@,
            )),
    {
        let modal = if startup_warnings.len() == 0 {
            Modal::Closed
        } else {
            Modal::Alert(join_strings(startup_warnings, "\n\n"))
        };
        LauncherState { view_mode: ViewMode::List, selection: Selection::new(), drag: None, modal }
    }

    fn take_modal(&mut self) -> (m: Modal)
        ensures
            m == old(self).modal,
            final(self).modal is Closed,
            same_but_modal(*final(self), *old(self)),
    {
        let mut m = Modal::Closed;
        std::mem::swap(&mut m, &mut self.modal);
        m
    }

    /// Switches the view; the selection and any drag are dropped.
    pub fn set_view_mode(&mut self, mode: ViewMode)
        ensures
            final(self).view_mode == mode,
            final(self).selection@ == Set::<Seq<char>>::empty(),
            final(self).drag is None,
            final(self).modal == old(self).modal,
    {
        self.view_mode = mode;
        self.selection.clear();
        self.drag = None;
    }

    /// A (single) press on the game `id`: with Ctrl it toggles the game in the
    /// selection, without it selects only that game; a drag of a known game
    /// starts, not yet active.
    pub fn press_game(&mut self, id: String, ctrl: bool, store: &GameStore)
        ensures
            ctrl && old(self).selection@.contains(id@) ==> final(self).selection@ == old(self).selection@.remove(id@),
            ctrl && !old(self).selection@.contains(id@) ==> final(self).selection@ == old(self).selection@.insert(id@),
            !ctrl ==> final(self).selection@ == Set::<Seq<char>>::empty().insert(id@),
            has_game(store.games@, id@) ==> (final(self).drag matches Some(d) && d.source_id == id
                && d.hover_id is None && !d.is_active),
            !has_game(store.games@, id@) ==> final(self).drag is None,
            final(self).view_mode == old(self).view_mode,
            final(self).modal == old(self).modal,
    {
        if ctrl {
            if self.selection.contains(id.as_str()) {
                self.selection.remove(id.as_str());
            } else {
                self.selection.insert(id.clone());
            }
        } else {
            self.selection.clear();
            self.selection.insert(id.clone());
            assert(Set::<Seq<char>>::empty().insert(id@) =~= self.selection@);
        }
        self.drag = match store.position(id.as_str()) {
            Some(_) => Some(DragState { source_id: id, hover_id: None, is_active: false }),
            None => None,
        };
    }

    /// A right press on the game `id`: it alone is selected and no drag
    /// starts.
    pub fn right_press_game(&mut self, id: String)
        ensures
            final(self).selection@ == Set::<Seq<char>>::empty().insert(id@),
            final(self).drag is None,
            final(self).view_mode == old(self).view_mode,
            final(self).modal == old(self).modal,
    {
        self.selection.clear();
        self.selection.insert(id);
        assert(Set::<Seq<char>>::empty().insert(id@) =~= self.selection@);
        self.drag = None;
    }

    /// The pointer entered the game `id`: a drag now hovers over it.
    pub fn drag_entered(&mut self, id: String)
        ensures
            match old(self).drag {
                Some(d) => final(self).drag == Some(DragState { hover_id: Some(id), ..d }),
                None => final(self).drag is None,
            },
            final(self).view_mode == old(self).view_mode,
            final(self).selection == old(self).selection,
            final(self).modal == old(self).modal,
    {
        let current = self.drag.take();
        self.drag = match current {
            Some(d) => Some(DragState { source_id: d.source_id, hover_id: Some(id), is_active: d.is_active }),
            None => None,
        };
    }

    /// The pointer left the game `id`: a drag hovering over it no longer does.
    pub fn drag_exited(&mut self, id: &str)
        ensures
            match old(self).drag {
                Some(d) => if (d.hover_id matches Some(h) && h@ == id@) {
                    final(self).drag == Some(DragState { hover_id: None, ..d })
                } else {
                    final(self).drag == old(self).drag
                },
                None => final(self).drag is None,
            },
            final(self).view_mode == old(self).view_mode,
            final(self).selection == old(self).selection,
            final(self).modal == old(self).modal,
    {
        let current = self.drag.take();
        self.drag = match current {
            Some(d) => {
                let hovered = match &d.hover_id {
                    Some(h) => same_text(h.as_str(), id),
                    None => false,
                };
                if hovered {
                    Some(DragState { source_id: d.source_id, hover_id: None, is_active: d.is_active })
                } else {
                    Some(d)
                }
            },
            None => None,
        };
    }

    /// A drag waits for the pointer to move far enough.
    pub fn drag_pending(&self) -> (r: bool)
        ensures
            r == (self.drag matches Some(d) && !d.is_active),
    {
        match &self.drag {
            Some(d) => !d.is_active,
            None => false,
        }
    }

    /// The pointer moved far enough: a waiting drag turns active and hovers
    /// over the dragged game. `true` tells that it turned active.
    pub fn activate_drag(&mut self) -> (r: bool)
        ensures
            r == (old(self).drag matches Some(d) && !d.is_active),
            r ==> (old(self).drag matches Some(d) && final(self).drag matches Some(e) && e.source_id
                == d.source_id && e.is_active && e.hover_id == Some(d.source_id)),
            !r ==> final(self).drag == old(self).drag,
            final(self).view_mode == old(self).view_mode,
            final(self).selection == old(self).selection,
            final(self).modal == old(self).modal,
    {
        let current = self.drag.take();
        match current {
            Some(d) => {
                if d.is_active {
                    self.drag = Some(d);
                    false
                } else {
                    let hover = d.source_id.clone();
                    self.drag = Some(DragState { source_id: d.source_id, hover_id: Some(hover), is_active: true });
                    true
                }
            },
            None => {
                self.drag = None;
                false
            },
        }
    }

    /// The pointer was released: the drag ends, and if it was active and
    /// dropped on another known game, the dragged game's id and that game's
    /// index are handed back for the move.
    pub fn finish_drag(&mut self, store: &GameStore) -> (r: Option<(String, usize)>)
        ensures
            final(self).drag is None,
            final(self).view_mode == old(self).view_mode,
            final(self).selection == old(self).selection,
            final(self).modal == old(self).modal,
            match r {
                Some((src, i)) => drag_move(old(self).drag, store.games@) == Some((src@, i as int)),
                None => drag_move(old(self).drag, store.games@) is None,
            },
    {
        let drag = match self.drag.take() {
            Some(d) => d,
            None => {
                return None;
            },
        };
        if !drag.is_active {
            return None;
        }
        let target_id = match drag.hover_id {
            Some(t) => t,
            None => {
                return None;
            },
        };
        if same_text(target_id.as_str(), drag.source_id.as_str()) {
            return None;
        }
        match store.position(target_id.as_str()) {
            Some(i) => Some((drag.source_id, i)),
            None => None,
        }
    }

    /// The game `id` is being dragged.
    pub fn is_drag_source(&self, id: &str) -> (r: bool)
        ensures
            r == drag_sources(self.drag, id@),
    {
        match &self.drag {
            Some(d) => d.is_active && same_text(d.source_id.as_str(), id),
            None => false,
        }
    }

    /// A drag hovers over the game `id`, which it does not drag.
    pub fn is_drag_target(&self, id: &str) -> (r: bool)
        ensures
            r == drag_targets(self.drag, id@),
    {
        match &self.drag {
            Some(d) => {
                let hovered = match &d.hover_id {
                    Some(h) => same_text(h.as_str(), id),
                    None => false,
                };
                d.is_active && !same_text(d.source_id.as_str(), id) && hovered
            },
            None => false,
        }
    }

    /// The id of the game previewed in place of `id`: the dragged game, when a
    /// drag hovers over `id`.
    pub fn drag_preview_source(&self, id: &str) -> (r: Option<String>)
        ensures
            drag_targets(self.drag, id@) ==> (r matches Some(s) && self.drag matches Some(d) && s
                == d.source_id),
            !drag_targets(self.drag, id@) ==> r is None,
    {
        if self.is_drag_target(id) {
            match &self.drag {
                Some(d) => Some(d.source_id.clone()),
                None => None,
            }
        } else {
            None
        }
    }

    /// Decides a launch from whether launching is allowed, the selection and
    /// the list, given
    /// whether the chosen game's file is on disk; `Ok` names the game.
    pub fn launch_check(&self, gate_open: bool, store: &GameStore, file_exists: bool) -> (r: Result<String, LaunchRefusal>)
        ensures
            launch_rules(self.selection@, gate_open, store.games@, file_exists, r),
    {
        if !gate_open {
            return Err(LaunchRefusal::GateClosed);
        }
        let id = match self.selection.only() {
            Some(id) => id,
            None => {
                return Err(LaunchRefusal::NotExactlyOne);
            },
        };
        let game = match store.get(id.as_str()) {
            Some(g) => g,
            None => {
                return Err(LaunchRefusal::GameNotFound);
            },
        };
        let path = trim_str(game.path.as_str());
        if path.as_str().unicode_len() == 0 {
            return Err(LaunchRefusal::EmptyPath);
        }
        if !is_uri(game.path.as_str()) && !file_exists {
            return Err(LaunchRefusal::FileMissing);
        }
        Ok(id)
    }

    /// Decides a launch; whether the chosen game's file is on disk is read
    /// at the call.
    pub fn launch_target(&self, gate_open: bool, store: &GameStore) -> (r: Result<String, LaunchRefusal>)
        ensures
            exists|file_exists: bool| launch_rules(self.selection@, gate_open, store.games@, file_exists, r),
    {
        let file_exists = match self.selection.only() {
            Some(id) => match store.get(id.as_str()) {
                Some(g) => {
                    let path = trim_str(g.path.as_str());
                    path.as_str().unicode_len() > 0 && exists_on_disk(path.as_str())
                },
                None => false,
            },
            None => false,
        };
        self.launch_check(gate_open, store, file_exists)
    }

    /// The delete button: with games selected, asks to confirm deleting them
    /// and gives `true`; with none, leaves everything as it is.
    pub fn remove_pressed(&mut self) -> (r: bool)
        ensures
            r == (old(self).selection@.len() > 0),
            r ==> (final(self).modal matches Modal::ConfirmDelete { ids } && texts(ids@).to_set()
                == old(self).selection@ && texts(ids@).no_duplicates()),
            !r ==> final(self).modal == old(self).modal,
            same_but_modal(*final(self), *old(self)),
    {
        if self.selection.len() == 0 {
            return false;
        }
        self.modal = Modal::ConfirmDelete { ids: self.selection.to_vec() };
        true
    }

    /// Confirming the delete dialog: closes it and, when it was open, clears
    /// the selection and hands back the ids to delete.
    pub fn take_confirmed_deletion(&mut self) -> (r: Option<Vec<String>>)
        ensures
            final(self).modal is Closed,
            final(self).view_mode == old(self).view_mode,
            final(self).drag == old(self).drag,
            old(self).modal matches Modal::ConfirmDelete { ids } ==> (r == Some(ids) && final(self).selection@ == Set::<Seq<char>>::empty()),
            !(old(self).modal is ConfirmDelete) ==> r is None && final(self).selection == old(self).selection,
    {
        match self.take_modal() {
            Modal::ConfirmDelete { ids } => {
                self.selection.clear();
                Some(ids)
            },
            _ => None,
        }
    }

    /// Closes any dialog.
    pub fn close_modal(&mut self)
        ensures
            final(self).modal is Closed,
            same_but_modal(*final(self), *old(self)),
    {
        self.modal = Modal::Closed;
    }

    /// Shows `message`.
    pub fn alert(&mut self, message: String)
        ensures
            final(self).modal == Modal::Alert(message),
            same_but_modal(*final(self), *old(self)),
    {
        self.modal = Modal::Alert(message);
    }

    /// Opens the empty "add a game" form.
    pub fn open_add_form(&mut self)
        ensures
            final(self).modal matches Modal::AddManual { name, path, icon } && name@.len() == 0
                && path@.len() == 0 && icon@.len() == 0,
            same_but_modal(*final(self), *old(self)),
    {
        self.modal = Modal::AddManual { name: String::new(), path: String::new(), icon: String::new() };
    }

    /// Types the name in the open "add a game" form.
    pub fn set_add_name(&mut self, value: String)
        ensures
            match old(self).modal {
                Modal::AddManual { name: _, path, icon } => final(self).modal == (Modal::AddManual {
                    name: value,
                    path,
                    icon,
                }),
                _ => final(self).modal == old(self).modal,
            },
            same_but_modal(*final(self), *old(self)),
    {
        self.modal = match self.take_modal() {
            Modal::AddManual { name: _, path, icon } => Modal::AddManual { name: value, path, icon },
            other => other,
        };
    }

    /// Types the path in the open "add a game" form.
    pub fn set_add_path(&mut self, value: String)
        ensures
            match old(self).modal {
                Modal::AddManual { name, path: _, icon } => final(self).modal == (Modal::AddManual {
                    name,
                    path: value,
                    icon,
                }),
                _ => final(self).modal == old(self).modal,
            },
            same_but_modal(*final(self), *old(self)),
    {
        self.modal = match self.take_modal() {
            Modal::AddManual { name, path: _, icon } => Modal::AddManual { name, path: value, icon },
            other => other,
        };
    }

    /// Types the icon in the open "add a game" form.
    pub fn set_add_icon(&mut self, value: String)
        ensures
            match old(self).modal {
                Modal::AddManual { name, path, icon: _ } => final(self).modal == (Modal::AddManual {
                    name,
                    path,
                    icon: value,
                }),
                _ => final(self).modal == old(self).modal,
            },
            same_but_modal(*final(self), *old(self)),
    {
        self.modal = match self.take_modal() {
            Modal::AddManual { name, path, icon: _ } => Modal::AddManual { name, path, icon: value },
            other => other,
        };
    }

    /// A picked icon file goes into the open "add" or "edit" form.
    pub fn set_picked_icon(&mut self, value: String)
        ensures
            match old(self).modal {
                Modal::AddManual { name, path, icon: _ } => final(self).modal == (Modal::AddManual {
                    name,
                    path,
                    icon: value,
                }),
                Modal::Edit { id, name, icon_path: _ } => final(self).modal == (Modal::Edit {
                    id,
                    name,
                    icon_path: value,
                }),
                _ => final(self).modal == old(self).modal,
            },
            same_but_modal(*final(self), *old(self)),
    {
        self.modal = match self.take_modal() {
            Modal::AddManual { name, path, icon: _ } => Modal::AddManual { name, path, icon: value },
            Modal::Edit { id, name, icon_path: _ } => Modal::Edit { id, name, icon_path: value },
            other => other,
        };
    }

    /// Confirming the "add a game" form: closes the dialog and, when that form
    /// was open, hands back its name, path and icon.
    pub fn take_add_form(&mut self) -> (r: Option<(String, String, String)>)
        ensures
            final(self).modal is Closed,
            same_but_modal(*final(self), *old(self)),
            match old(self).modal {
                Modal::AddManual { name, path, icon } => r == Some((name, path, icon)),
                _ => r is None,
            },
    {
        match self.take_modal() {
            Modal::AddManual { name, path, icon } => Some((name, path, icon)),
            _ => None,
        }
    }

    /// The edit button: with exactly one known game selected, opens its edit
    /// form filled with its name and icon.
    pub fn open_edit_form(&mut self, store: &GameStore) -> (r: Result<(), EditRefusal>)
        ensures
            old(self).selection@.len() != 1 ==> r == Err::<(), EditRefusal>(EditRefusal::NotExactlyOne) && final(self).modal == old(self).modal,
            old(self).selection@.len() == 1 ==> forall|id: Seq<char>| #[trigger] old(self).selection@.contains(id) ==> {
                &&& !has_game(store.games@, id) ==> r == Err::<(), EditRefusal>(EditRefusal::GameNotFound) && final(self).modal == old(self).modal
                &&& has_game(store.games@, id) ==> r is Ok && (final(self).modal matches Modal::Edit { id: i, name, icon_path } && i@ == id && name == store.games@[position_of(store.games@, id)].name && icon_path == store.games@[position_of(store.games@, id)].icon)
            },
            same_but_modal(*final(self), *old(self)),
    {
        let id = match self.selection.only() {
            Some(id) => id,
            None => {
                return Err(EditRefusal::NotExactlyOne);
            },
        };
        match store.get(id.as_str()) {
            Some(g) => {
                self.modal = Modal::Edit { id, name: g.name.clone(), icon_path: g.icon.clone() };
                Ok(())
            },
            None => Err(EditRefusal::GameNotFound),
        }
    }

    /// Types the name in the open edit form.
    pub fn set_edit_name(&mut self, value: String)
        ensures
            match old(self).modal {
                Modal::Edit { id, name: _, icon_path } => final(self).modal == (Modal::Edit {
                    id,
                    name: value,
                    icon_path,
                }),
                _ => final(self).modal == old(self).modal,
            },
            same_but_modal(*final(self), *old(self)),
    {
        self.modal = match self.take_modal() {
            Modal::Edit { id, name: _, icon_path } => Modal::Edit { id, name: value, icon_path },
            other => other,
        };
    }

    /// Types the icon in the open edit form.
    pub fn set_edit_icon(&mut self, value: String)
        ensures
            match old(self).modal {
                Modal::Edit { id, name, icon_path: _ } => final(self).modal == (Modal::Edit {
                    id,
                    name,
                    icon_path: value,
                }),
                _ => final(self).modal == old(self).modal,
            },
            same_but_modal(*final(self), *old(self)),
    {
        self.modal = match self.take_modal() {
            Modal::Edit { id, name, icon_path: _ } => Modal::Edit { id, name, icon_path: value },
            other => other,
        };
    }

    /// Clears the icon in the open edit form.
    pub fn clear_edit_icon(&mut self)
        ensures
            match old(self).modal {
                Modal::Edit { id, name, icon_path: _ } => final(self).modal matches Modal::Edit {
                    id: i,
                    name: n,
                    icon_path,
                } && i == id && n == name && icon_path@.len() == 0,
                _ => final(self).modal == old(self).modal,
            },
            same_but_modal(*final(self), *old(self)),
    {
        self.modal = match self.take_modal() {
            Modal::Edit { id, name, icon_path: _ } => Modal::Edit { id, name, icon_path: String::new() },
            other => other,
        };
    }

    /// Saving the edit form: closes the dialog and, when that form was open,
    /// hands back the game's id, name and icon.
    pub fn take_edit_form(&mut self) -> (r: Option<(String, String, String)>)
        ensures
            final(self).modal is Closed,
            same_but_modal(*final(self), *old(self)),
            match old(self).modal {
                Modal::Edit { id, name, icon_path } => r == Some((id, name, icon_path)),
                _ => r is None,
            },
    {
        match self.take_modal() {
            Modal::Edit { id, name, icon_path } => Some((id, name, icon_path)),
            _ => None,
        }
    }

    /// Opens the batch dialog for the resolved entries; with none, nothing
    /// opens and `false` comes back.
    pub fn open_batch(&mut self, resolved: &[ResolvedDrop]) -> (r: bool)
        ensures
            r == (resolved@.len() > 0),
            r ==> (final(self).modal matches Modal::Batch { rows } && rows@ == rows_for(resolved@)),
            !r ==> final(self).modal == old(self).modal,
            same_but_modal(*final(self), *old(self)),
    {
        if resolved.len() == 0 {
            return false;
        }
        self.modal = Modal::Batch { rows: batch_rows(resolved) };
        true
    }

    /// Ticks or unticks the row `i` of the open batch dialog.
    pub fn set_batch_enabled(&mut self, i: usize, value: bool)
        ensures
            match old(self).modal {
                Modal::Batch { rows } => if i < rows@.len() {
                    final(self).modal matches Modal::Batch { rows: r2 } && r2@ == rows@.update(i as int, BatchRow { enabled: value, ..rows@[i as int] })
                } else {
                    final(self).modal == old(self).modal
                },
                _ => final(self).modal == old(self).modal,
            },
            same_but_modal(*final(self), *old(self)),
    {
        self.modal = match self.take_modal() {
            Modal::Batch { rows } => {
                let mut rows = rows;
                if i < rows.len() {
                    let mut row = rows[i].clone();
                    row.enabled = value;
                    rows.set(i, row);
                }
                Modal::Batch { rows }
            },
            other => other,
        };
    }

    /// Types the name of the row `i` of the open batch dialog.
    pub fn set_batch_name(&mut self, i: usize, value: String)
        ensures
            match old(self).modal {
                Modal::Batch { rows } => if i < rows@.len() {
                    final(self).modal matches Modal::Batch { rows: r2 } && r2@ == rows@.update(i as int, BatchRow { name: value, ..rows@[i as int] })
                } else {
                    final(self).modal == old(self).modal
                },
                _ => final(self).modal == old(self).modal,
            },
            same_but_modal(*final(self), *old(self)),
    {
        self.modal = match self.take_modal() {
            Modal::Batch { rows } => {
                let mut rows = rows;
                if i < rows.len() {
                    let mut row = rows[i].clone();
                    row.name = value;
                    rows.set(i, row);
                }
                Modal::Batch { rows }
            },
            other => other,
        };
    }

    /// Sets the icon of the row `i` of the open batch dialog.
    pub fn set_batch_icon(&mut self, i: usize, value: String)
        ensures
            match old(self).modal {
                Modal::Batch { rows } => if i < rows@.len() {
                    final(self).modal matches Modal::Batch { rows: r2 } && r2@ == rows@.update(i as int, BatchRow { icon_source: value, ..rows@[i as int] })
                } else {
                    final(self).modal == old(self).modal
                },
                _ => final(self).modal == old(self).modal,
            },
            same_but_modal(*final(self), *old(self)),
    {
        self.modal = match self.take_modal() {
            Modal::Batch { rows } => {
                let mut rows = rows;
                if i < rows.len() {
                    let mut row = rows[i].clone();
                    row.icon_source = value;
                    rows.set(i, row);
                }
                Modal::Batch { rows }
            },
            other => other,
        };
    }

    /// Confirming the batch dialog: closes it and, when it was open, hands
    /// back its rows.
    pub fn take_batch_rows(&mut self) -> (r: Option<Vec<BatchRow>>)
        ensures
            final(self).modal is Closed,
            same_but_modal(*final(self), *old(self)),
            match old(self).modal {
                Modal::Batch { rows } => r == Some(rows),
                _ => r is None,
            },
    {
        match self.take_modal() {
            Modal::Batch { rows } => Some(rows),
            _ => None,
        }
    }

    /// The Delete key acts as the delete button only when no dialog is open.
    pub fn delete_key_removes(&self) -> (r: bool)
        ensures
            r == (self.modal is Closed),
    {
        match &self.modal {
            Modal::Closed => true,
            _ => false,
        }
    }
}

/// With launching allowed and exactly one game selected, a game that is in
/// the list with a path that is not blank is started when its file is on disk
/// (or its path is a URI): the decision is that game's id, never a refusal.
pub proof fn one_known_present_game_launches(
    selection: Set<Seq<char>>,
    games: Seq<Game>,
    id: Seq<char>,
    r: Result<String, LaunchRefusal>,
)
    requires
        selection == Set::<Seq<char>>::empty().insert(id),
        has_game(games, id),
        trim(games[position_of(games, id)].path@).len() > 0,
        launch_rules(selection, true, games, true, r),
    ensures
        r matches Ok(x) && x@ == id,
{
    assert(selection.len() == 1) by {
        assert(Set::<Seq<char>>::empty().len() == 0);
    }
    assert(selection.contains(id));
}

/// Releasing an active drag of a listed game over another listed game asks
/// to move the dragged game to the index the hovered game has in the list,
/// whichever way the drag went; with distinct ids, the dragged game then
/// stands at that index.
pub proof fn drag_lands_on_hovered_game(source_id: String, target_id: String, games: Seq<Game>)
    requires
        source_id@ != target_id@,
        has_game(games, source_id@),
        has_game(games, target_id@),
        distinct_ids(games),
    ensures
        drag_move(Some(DragState { source_id, hover_id: Some(target_id), is_active: true }), games)
            == Some((source_id@, position_of(games, target_id@))),
        games[position_of(games, target_id@)].id@ == target_id@,
        position_of(
            moved(games, position_of(games, source_id@), position_of(games, target_id@)),
            source_id@,
        ) == position_of(games, target_id@),
{
    crate::game_store::lemma_position_of(games, target_id@);
    moved_game_is_found_at_target(games, source_id@, position_of(games, target_id@));
}

} // verus!
