use game_launcher::drop_resolve::ResolvedDrop;
use game_launcher::game_store::{Game, GameStore};
use game_launcher::launcher::{
    batch_outcome, batch_rows, is_double_click, truncate_tile_name, BatchOutcome, BatchRow,
    EditRefusal, LaunchRefusal, LauncherState, Modal, Selection, ViewMode,
};

fn game(id: &str, path: &str) -> Game {
    Game {
        id: id.to_string(),
        name: format!("Game {id}"),
        path: path.to_string(),
        icon: format!("/icons/{id}.png"),
        working_dir: String::new(),
        launch_args: String::new(),
    }
}

fn store() -> GameStore {
    let mut s = GameStore::new("/app");
    s.games.push(game("a", "/g/a.exe"));
    s.games.push(game("b", "steam://run/1"));
    s.games.push(game("c", "  "));
    s.games.push(game("d", "/no/such/d.exe"));
    s
}

fn drop_entry(name: &str) -> ResolvedDrop {
    ResolvedDrop {
        name: name.to_string(),
        target_path: format!("/g/{name}.exe"),
        icon_source: format!("/i/{name}.ico"),
        working_dir: "/w".to_string(),
        launch_args: "-x".to_string(),
    }
}

#[test]
fn selection_holds_each_id_once() {
    let mut s = Selection::new();
    assert_eq!(s.len(), 0);
    s.insert("a".to_string());
    s.insert("a".to_string());
    s.insert("b".to_string());
    assert_eq!(s.len(), 2);
    assert!(s.contains("a"));
    assert!(s.only().is_none());
    s.remove("a");
    assert!(!s.contains("a"));
    assert_eq!(s.only(), Some("b".to_string()));
    s.remove("zzz");
    assert_eq!(s.to_vec(), vec!["b".to_string()]);
    s.clear();
    assert_eq!(s.len(), 0);
}

#[test]
fn the_window_opens_with_the_startup_warnings() {
    let state = LauncherState::new(&[]);
    assert_eq!(state.view_mode, ViewMode::List);
    assert_eq!(state.modal, Modal::Closed);
    let state = LauncherState::new(&["one".to_string(), "two".to_string()]);
    assert_eq!(state.modal, Modal::Alert("one\n\ntwo".to_string()));
}

#[test]
fn pressing_selects_and_ctrl_toggles() {
    let st = store();
    let mut state = LauncherState::new(&[]);
    state.press_game("a".into(), false, &st);
    assert_eq!(state.selection.only(), Some("a".to_string()));
    state.press_game("b".into(), true, &st);
    assert_eq!(state.selection.len(), 2);
    state.press_game("a".into(), true, &st);
    assert_eq!(state.selection.only(), Some("b".to_string()));
    state.press_game("c".into(), false, &st);
    assert_eq!(state.selection.only(), Some("c".to_string()));
    state.right_press_game("d".into());
    assert_eq!(state.selection.only(), Some("d".to_string()));
    assert!(state.drag.is_none());
}

#[test]
fn switching_the_view_drops_selection_and_drag() {
    let st = store();
    let mut state = LauncherState::new(&[]);
    state.press_game("a".into(), false, &st);
    state.set_view_mode(ViewMode::Tiles);
    assert_eq!(state.view_mode, ViewMode::Tiles);
    assert_eq!(state.selection.len(), 0);
    assert!(state.drag.is_none());
}

#[test]
fn a_drag_starts_only_on_known_games() {
    let st = store();
    let mut state = LauncherState::new(&[]);
    state.press_game("zzz".into(), false, &st);
    assert!(state.drag.is_none());
    state.press_game("a".into(), false, &st);
    assert!(state.drag_pending());
}

#[test]
fn an_active_drag_onto_another_game_moves_it_there() {
    let st = store();
    let mut state = LauncherState::new(&[]);
    state.press_game("a".into(), false, &st);
    assert!(!state.is_drag_source("a"));
    assert!(state.activate_drag());
    assert!(!state.activate_drag());
    assert!(state.is_drag_source("a"));
    assert!(!state.is_drag_target("a"));
    state.drag_entered("c".into());
    assert!(state.is_drag_target("c"));
    assert_eq!(state.drag_preview_source("c"), Some("a".to_string()));
    assert_eq!(state.drag_preview_source("b"), None);
    assert_eq!(state.finish_drag(&st), Some(("a".to_string(), 2)));
    assert!(state.drag.is_none());
}

#[test]
fn drags_that_are_not_moves_end_without_one() {
    let st = store();
    let mut state = LauncherState::new(&[]);
    state.press_game("a".into(), false, &st);
    state.drag_entered("b".into());
    assert_eq!(state.finish_drag(&st), None);

    state.press_game("a".into(), false, &st);
    state.activate_drag();
    assert_eq!(state.finish_drag(&st), None);

    state.press_game("a".into(), false, &st);
    state.activate_drag();
    state.drag_entered("b".into());
    state.drag_exited("b");
    assert_eq!(state.finish_drag(&st), None);

    state.press_game("a".into(), false, &st);
    state.activate_drag();
    state.drag_entered("ghost".into());
    assert_eq!(state.finish_drag(&st), None);
    assert_eq!(state.finish_drag(&st), None);
}

#[test]
fn launching_needs_permission_one_known_game_and_a_path() {
    let st = store();
    let mut state = LauncherState::new(&[]);
    assert_eq!(state.launch_check(false, &st, true), Err(LaunchRefusal::GateClosed));
    assert_eq!(state.launch_check(true, &st, true), Err(LaunchRefusal::NotExactlyOne));
    state.press_game("a".into(), false, &st);
    assert_eq!(state.launch_check(true, &st, true), Ok("a".to_string()));
    assert_eq!(state.launch_check(true, &st, false), Err(LaunchRefusal::FileMissing));
    state.press_game("b".into(), false, &st);
    assert_eq!(state.launch_check(true, &st, false), Ok("b".to_string()));
    state.press_game("c".into(), false, &st);
    assert_eq!(state.launch_check(true, &st, true), Err(LaunchRefusal::EmptyPath));
    state.right_press_game("ghost".into());
    assert_eq!(state.launch_check(true, &st, true), Err(LaunchRefusal::GameNotFound));
    state.press_game("d".into(), false, &st);
    assert_eq!(state.launch_target(true, &st), Err(LaunchRefusal::FileMissing));
    state.press_game("b".into(), false, &st);
    assert_eq!(state.launch_target(true, &st), Ok("b".to_string()));
}

#[test]
fn deleting_asks_first_and_then_hands_the_ids_out() {
    let st = store();
    let mut state = LauncherState::new(&[]);
    assert!(!state.remove_pressed());
    assert_eq!(state.modal, Modal::Closed);
    state.press_game("a".into(), false, &st);
    state.press_game("b".into(), true, &st);
    assert!(state.delete_key_removes());
    assert!(state.remove_pressed());
    assert!(!state.delete_key_removes());
    let mut ids = state.take_confirmed_deletion().unwrap();
    ids.sort();
    assert_eq!(ids, vec!["a".to_string(), "b".to_string()]);
    assert_eq!(state.selection.len(), 0);
    assert_eq!(state.modal, Modal::Closed);
    assert_eq!(state.take_confirmed_deletion(), None);
}

#[test]
fn the_add_form_collects_name_path_and_icon() {
    let mut state = LauncherState::new(&[]);
    state.set_add_name("ignored".into());
    assert_eq!(state.modal, Modal::Closed);
    state.open_add_form();
    state.set_add_name("N".into());
    state.set_add_path("/g/x.exe".into());
    state.set_add_icon("/i/x.png".into());
    state.set_picked_icon("/i/y.png".into());
    assert_eq!(
        state.take_add_form(),
        Some(("N".to_string(), "/g/x.exe".to_string(), "/i/y.png".to_string()))
    );
    assert_eq!(state.take_add_form(), None);
}

#[test]
fn the_edit_form_opens_for_one_known_game() {
    let st = store();
    let mut state = LauncherState::new(&[]);
    assert_eq!(state.open_edit_form(&st), Err(EditRefusal::NotExactlyOne));
    state.right_press_game("ghost".into());
    assert_eq!(state.open_edit_form(&st), Err(EditRefusal::GameNotFound));
    state.right_press_game("a".into());
    assert_eq!(state.open_edit_form(&st), Ok(()));
    assert_eq!(state.modal, Modal::Edit {
        id: "a".into(),
        name: "Game a".into(),
        icon_path: "/icons/a.png".into(),
    });
    state.set_edit_name("New".into());
    state.clear_edit_icon();
    state.set_picked_icon("/i/p.png".into());
    state.set_edit_icon("/i/q.png".into());
    assert_eq!(
        state.take_edit_form(),
        Some(("a".to_string(), "New".to_string(), "/i/q.png".to_string()))
    );
}

#[test]
fn the_batch_dialog_lists_every_entry_enabled() {
    let entries = vec![drop_entry("x"), drop_entry("y")];
    let rows = batch_rows(&entries);
    assert_eq!(rows[1], BatchRow {
        enabled: true,
        name: "y".into(),
        target_path: "/g/y.exe".into(),
        icon_source: "/i/y.ico".into(),
    });
    let mut state = LauncherState::new(&[]);
    assert!(!state.open_batch(&[]));
    assert_eq!(state.modal, Modal::Closed);
    assert!(state.open_batch(&entries));
    state.set_batch_enabled(0, false);
    state.set_batch_name(1, "Why".into());
    state.set_batch_icon(1, "/i/z.png".into());
    state.set_batch_name(7, "out of range".into());
    let rows = state.take_batch_rows().unwrap();
    assert!(!rows[0].enabled);
    assert_eq!(rows[1].name, "Why");
    assert_eq!(rows[1].icon_source, "/i/z.png");
    assert_eq!(rows.len(), 2);
}

#[test]
fn batch_outcomes() {
    assert_eq!(batch_outcome(0, 0, 0), BatchOutcome::NothingSelected);
    assert_eq!(batch_outcome(3, 1, 2), BatchOutcome::SomeFailed { added: 1 });
    assert_eq!(batch_outcome(2, 0, 0), BatchOutcome::NoneAdded);
    assert_eq!(batch_outcome(2, 2, 0), BatchOutcome::AllAdded);
}

#[test]
fn double_clicks_are_quick_second_clicks_in_the_list() {
    assert!(is_double_click(ViewMode::List, Some("a"), "a", 449));
    assert!(!is_double_click(ViewMode::List, Some("a"), "a", 450));
    assert!(!is_double_click(ViewMode::List, Some("b"), "a", 10));
    assert!(!is_double_click(ViewMode::Tiles, Some("a"), "a", 10));
    assert!(!is_double_click(ViewMode::List, None, "a", 10));
}

#[test]
fn tile_names_are_cut_after_twelve_characters() {
    assert_eq!(truncate_tile_name("Short"), "Short");
    assert_eq!(truncate_tile_name("ExactlyTwelv"), "ExactlyTwelv");
    assert_eq!(truncate_tile_name("Thirteen Char"), "Thirteen Cha...");
    assert_eq!(truncate_tile_name("Ведьмак 3: Дикая Охота"), "Ведьмак 3: Д...");
    assert!(truncate_tile_name("a very long game name indeed").chars().count() <= 15);
}
