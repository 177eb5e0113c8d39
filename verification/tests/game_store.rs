use game_launcher::drop_resolve::ResolvedDrop;
use game_launcher::game_store::{
    choose_name, complete_icon_change, convert_ico_to_png, file_draft, icon_file_to_remove,
    launch_plan_for,
    shortcut_draft, working_dir_choice, Game, GameDraft, GameInput, GameStore, GameStoreError,
    IconChangeStep, IconCopy, LaunchPlan, PreparedIconChange,
};

fn game(id: &str) -> Game {
    Game {
        id: id.to_string(),
        name: format!("Game {id}"),
        path: format!("/games/{id}.exe"),
        icon: String::new(),
        working_dir: String::new(),
        launch_args: String::new(),
    }
}

fn store_with(ids: &[&str]) -> GameStore {
    let mut store = GameStore::new("/app");
    for id in ids {
        store.games.push(game(id));
    }
    store
}

fn ids(store: &GameStore) -> Vec<String> {
    store.games.iter().map(|g| g.id.clone()).collect()
}

fn strings(v: &[&str]) -> Vec<String> {
    v.iter().map(|s| s.to_string()).collect()
}

#[test]
fn a_new_store_is_empty_and_kept_in_the_app_directory() {
    let store = GameStore::new("/app");
    assert_eq!(store.config_path, "/app/games.json");
    assert_eq!(store.icons_dir, "/app/icons");
    assert!(store.games.is_empty());
    assert!(store.startup_warning.is_none());
}

#[test]
fn startup_warnings_are_joined_and_handed_out_once() {
    let mut store = GameStore::new("/app");
    store.set_startup_warnings(&strings(&["no icons dir", "bad json"]));
    assert_eq!(store.take_startup_warning(), Some("no icons dir\n\nbad json".to_string()));
    assert_eq!(store.take_startup_warning(), None);
    store.set_startup_warnings(&[]);
    assert_eq!(store.take_startup_warning(), None);
}

#[test]
fn get_finds_the_first_game_with_the_id() {
    let mut store = store_with(&["a", "b"]);
    let mut dup = game("a");
    dup.name = "second a".to_string();
    store.games.push(dup);
    assert_eq!(store.get("a").unwrap().name, "Game a");
    assert_eq!(store.position("b"), Some(1));
    assert!(store.get("zzz").is_none());
}

#[test]
fn remove_takes_the_game_out() {
    let mut store = store_with(&["a", "b", "c"]);
    let removed = store.remove("b").unwrap();
    assert_eq!(removed.id, "b");
    assert_eq!(ids(&store), strings(&["a", "c"]));
}

#[test]
fn remove_of_an_unknown_game_is_refused() {
    let mut store = store_with(&["a"]);
    assert!(matches!(store.remove("x"), Err(GameStoreError::NotFound)));
    assert_eq!(ids(&store), strings(&["a"]));
}

#[test]
fn move_game_shifts_within_the_list() {
    let mut store = store_with(&["a", "b", "c", "d"]);
    assert!(store.move_game("b", 2).unwrap());
    assert_eq!(ids(&store), strings(&["a", "c", "d", "b"]));
    assert!(store.move_game("b", -3).unwrap());
    assert_eq!(ids(&store), strings(&["b", "a", "c", "d"]));
}

#[test]
fn move_game_outside_the_list_changes_nothing() {
    let mut store = store_with(&["a", "b", "c"]);
    assert!(!store.move_game("a", -1).unwrap());
    assert!(!store.move_game("c", 1).unwrap());
    assert!(!store.move_game("b", isize::MAX).unwrap());
    assert!(!store.move_game("b", isize::MIN).unwrap());
    assert_eq!(ids(&store), strings(&["a", "b", "c"]));
    assert!(matches!(store.move_game("x", 1), Err(GameStoreError::NotFound)));
}

#[test]
fn moving_back_restores_the_order() {
    let mut store = store_with(&["a", "b", "c", "d", "e"]);
    assert!(store.move_game("b", 2).unwrap());
    assert!(store.move_game("b", -2).unwrap());
    assert_eq!(ids(&store), strings(&["a", "b", "c", "d", "e"]));
}

#[test]
fn move_game_to_places_the_game_or_sends_it_last() {
    let mut store = store_with(&["a", "b", "c", "d"]);
    assert!(store.move_game_to("a", 2).unwrap());
    assert_eq!(ids(&store), strings(&["b", "c", "a", "d"]));
    assert_eq!(store.position("a"), Some(2));
    assert!(store.move_game_to("b", 99).unwrap());
    assert_eq!(ids(&store), strings(&["c", "a", "d", "b"]));
    assert!(!store.move_game_to("d", 2).unwrap());
    assert!(matches!(store.move_game_to("x", 0), Err(GameStoreError::NotFound)));
}

#[test]
fn move_game_to_the_last_place_when_already_last_still_rewrites() {
    let mut store = store_with(&["a", "b"]);
    assert!(store.move_game_to("b", 5).unwrap());
    assert_eq!(ids(&store), strings(&["a", "b"]));
}

#[test]
fn reorder_follows_the_given_ids_and_puts_unknown_ones_last() {
    let mut store = store_with(&["a", "b", "c", "d"]);
    store.reorder(&strings(&["c", "a"]));
    assert_eq!(ids(&store), strings(&["c", "a", "b", "d"]));
}

#[test]
fn reorder_uses_the_last_occurrence_of_a_repeated_id() {
    let mut store = store_with(&["a", "b", "c"]);
    store.reorder(&strings(&["a", "b", "a"]));
    assert_eq!(ids(&store), strings(&["b", "a", "c"]));
}

#[test]
fn reorder_is_stable_and_keeps_every_game() {
    let mut store = store_with(&["x", "a", "y", "a", "z"]);
    store.games[1].name = "first a".to_string();
    store.games[3].name = "second a".to_string();
    store.reorder(&strings(&["a"]));
    assert_eq!(ids(&store), strings(&["a", "a", "x", "y", "z"]));
    assert_eq!(store.games[0].name, "first a");
    assert_eq!(store.games[1].name, "second a");
}

#[test]
fn reorder_twice_is_reorder_once() {
    let order = strings(&["d", "b"]);
    let mut store = store_with(&["a", "b", "c", "d"]);
    store.reorder(&order);
    let once = ids(&store);
    store.reorder(&order);
    assert_eq!(ids(&store), once);
}

#[test]
fn reorder_by_the_current_order_changes_nothing() {
    let mut store = store_with(&["a", "b", "c"]);
    store.reorder(&strings(&["a", "b", "c"]));
    assert_eq!(ids(&store), strings(&["a", "b", "c"]));
    store.reorder(&[]);
    assert_eq!(ids(&store), strings(&["a", "b", "c"]));
}

#[test]
fn blank_icon_source_clears_the_icon() {
    let step = GameStore::prepare_icon_change(" /icons/old.png ", "   ");
    assert_eq!(step, IconChangeStep::Ready(PreparedIconChange {
        next_icon: String::new(),
        new_icon_to_cleanup: None,
        old_icon_to_delete: Some("/icons/old.png".to_string()),
    }));
    let step = GameStore::prepare_icon_change("", "");
    assert_eq!(step, IconChangeStep::Ready(PreparedIconChange {
        next_icon: String::new(),
        new_icon_to_cleanup: None,
        old_icon_to_delete: None,
    }));
}

#[test]
fn same_icon_is_kept() {
    let step = GameStore::prepare_icon_change("/icons/a.png", " /icons/a.png");
    assert_eq!(step, IconChangeStep::Ready(PreparedIconChange {
        next_icon: "/icons/a.png".to_string(),
        new_icon_to_cleanup: None,
        old_icon_to_delete: None,
    }));
}

#[test]
fn other_icon_needs_a_copy() {
    let step = GameStore::prepare_icon_change("/icons/a.png", " /pics/b.png ");
    assert_eq!(step, IconChangeStep::CopyNeeded { source: "/pics/b.png".to_string() });
    let change = complete_icon_change("/icons/a.png", "/icons/g-1.png".to_string());
    assert_eq!(change.next_icon, "/icons/g-1.png");
    assert_eq!(change.new_icon_to_cleanup, Some("/icons/g-1.png".to_string()));
    assert_eq!(GameStore::finalize_icon_change(&change), Some("/icons/a.png".to_string()));
    assert_eq!(GameStore::rollback_icon_change(&change), Some("/icons/g-1.png".to_string()));
    let change = complete_icon_change("", String::new());
    assert_eq!(GameStore::finalize_icon_change(&change), None);
    assert_eq!(GameStore::rollback_icon_change(&change), None);
}

#[test]
fn only_non_blank_icon_files_are_removed() {
    assert_eq!(icon_file_to_remove("  /icons/a.png "), Some("/icons/a.png".to_string()));
    assert_eq!(icon_file_to_remove("  "), None);
}

#[test]
fn icon_and_meta_updates_can_be_reverted() {
    let mut store = store_with(&["a", "b"]);
    let change = complete_icon_change("", "/icons/new.png".to_string());
    let update = store.update_game_meta("b", "Renamed".to_string(), &change).unwrap();
    assert_eq!(update.index, 1);
    assert_eq!(store.games[1].name, "Renamed");
    assert_eq!(store.games[1].icon, "/icons/new.png");
    store.revert_update(update);
    assert_eq!(store.games[1], game("b"));

    let update = store.update_icon("a", &change).unwrap();
    assert_eq!(store.games[0].icon, "/icons/new.png");
    assert_eq!(store.games[0].name, "Game a");
    store.revert_update(update);
    assert_eq!(store.games[0], game("a"));

    assert!(matches!(store.update_icon("x", &change), Err(GameStoreError::NotFound)));
    assert!(matches!(
        store.update_game_meta("x", String::new(), &change),
        Err(GameStoreError::NotFound)
    ));
}

#[test]
fn names_fall_back_when_blank() {
    assert_eq!(choose_name("  My Game ", "Link"), "My Game");
    assert_eq!(choose_name("   ", "Link"), "Link");
}

#[test]
fn input_with_blank_path_is_refused() {
    let r = GameStore::resolve_game_input("x".into(), "  ".into(), String::new());
    assert!(matches!(r, Err(GameStoreError::EmptyPath)));
}

#[test]
fn uri_input_is_ready_at_once() {
    let r = GameStore::resolve_game_input(" ".into(), " steam://run/1 ".into(), "i.png".into()).unwrap();
    assert_eq!(r, GameInput::Ready(GameDraft {
        name: "Link".into(),
        path: "steam://run/1".into(),
        icon_source: "i.png".into(),
        working_dir: String::new(),
        launch_args: String::new(),
    }));
}

#[test]
fn shortcut_and_file_inputs_wait_for_the_next_step() {
    let r = GameStore::resolve_game_input("n".into(), " /d/Game.LNK".into(), String::new()).unwrap();
    assert_eq!(r, GameInput::Shortcut { name: "n".into(), path: "/d/Game.LNK".into(), icon_source: String::new() });
    let r = GameStore::resolve_game_input("n".into(), "/d/site.Url".into(), String::new()).unwrap();
    assert!(matches!(r, GameInput::Shortcut { .. }));
    let r = GameStore::resolve_game_input("n".into(), "/d/game.exe ".into(), "i".into()).unwrap();
    assert_eq!(r, GameInput::LocalFile { name: "n".into(), path: "/d/game.exe".into(), icon_source: "i".into() });
}

#[test]
fn file_drafts_take_the_stem_and_parent() {
    let d = file_draft("", "/games/Quake/quake.exe".into(), "i.png".into(), true).unwrap();
    assert_eq!(d, GameDraft {
        name: "quake".into(),
        path: "/games/Quake/quake.exe".into(),
        icon_source: "i.png".into(),
        working_dir: "/games/Quake".into(),
        launch_args: String::new(),
    });
    let r = file_draft("", "/nowhere/x.exe".into(), String::new(), false);
    assert!(matches!(r, Err(GameStoreError::FileNotFound(p)) if p == "/nowhere/x.exe"));
}

#[test]
fn file_drafts_check_the_disk() {
    let d = GameStore::draft_from_file("Mine", "/".into(), String::new()).unwrap();
    assert_eq!(d.name, "Mine");
    assert_eq!(d.path, "/");
    assert_eq!(d.working_dir, "");
    let r = GameStore::draft_from_file("", "/no/such/file.exe".into(), String::new());
    assert!(matches!(r, Err(GameStoreError::FileNotFound(_))));
}

fn resolved(target: &str) -> ResolvedDrop {
    ResolvedDrop {
        name: "Shortcut Name".into(),
        target_path: target.into(),
        icon_source: "/i/s.ico".into(),
        working_dir: "/w".into(),
        launch_args: "-x".into(),
    }
}

#[test]
fn shortcut_drafts_prefer_typed_name_and_chosen_icon() {
    let d = shortcut_draft("", String::new(), resolved("/g/a.exe"), true).unwrap();
    assert_eq!(d, GameDraft {
        name: "Shortcut Name".into(),
        path: "/g/a.exe".into(),
        icon_source: "/i/s.ico".into(),
        working_dir: "/w".into(),
        launch_args: "-x".into(),
    });
    let d = shortcut_draft("Typed", "/i/chosen.png".into(), resolved("/g/a.exe"), true).unwrap();
    assert_eq!(d.name, "Typed");
    assert_eq!(d.icon_source, "/i/chosen.png");
    let r = shortcut_draft("", String::new(), resolved("/g/missing.exe"), false);
    assert!(matches!(r, Err(GameStoreError::FileNotFound(p)) if p == "/g/missing.exe"));
    let d = shortcut_draft("", String::new(), resolved("steam://run/1"), false).unwrap();
    assert_eq!(d.path, "steam://run/1");
}

#[test]
fn shortcut_drafts_check_the_disk_for_file_targets() {
    let d = GameStore::draft_from_shortcut("", String::new(), resolved("https://x.org/a")).unwrap();
    assert_eq!(d.path, "https://x.org/a");
    let r = GameStore::draft_from_shortcut("", String::new(), resolved("/no/such/target.exe"));
    assert!(matches!(r, Err(GameStoreError::FileNotFound(_))));
}

#[test]
fn added_games_can_be_taken_back() {
    let mut store = store_with(&["a"]);
    let draft = file_draft("", "/g/b.exe".into(), String::new(), true).unwrap();
    store.push_game("id-b".into(), draft, "/icons/b.png".into());
    assert_eq!(store.games[1].id, "id-b");
    assert_eq!(store.games[1].name, "b");
    assert_eq!(store.games[1].icon, "/icons/b.png");
    assert_eq!(store.games[1].working_dir, "/g");
    let popped = store.pop_game().unwrap();
    assert_eq!(popped.id, "id-b");
    assert_eq!(ids(&store), strings(&["a"]));
}

#[test]
fn launch_plans_follow_the_path() {
    let mut g = game("a");
    g.path = "  ".into();
    assert!(matches!(launch_plan_for(&g, true, None), Err(GameStoreError::EmptyLaunchPath)));
    g.path = " steam://run/1 ".into();
    assert_eq!(launch_plan_for(&g, false, None).unwrap(), LaunchPlan::OpenUri("steam://run/1".into()));
    g.path = "/g/a.exe".into();
    assert!(matches!(launch_plan_for(&g, false, None), Err(GameStoreError::FileNotFound(p)) if p == "/g/a.exe"));
    g.launch_args = "  -a -b ".into();
    assert_eq!(
        launch_plan_for(&g, true, Some("/g".into())).unwrap(),
        LaunchPlan::Spawn { program: "/g/a.exe".into(), working_dir: Some("/g".into()), args: Some("-a -b".into()) }
    );
    g.launch_args = "   ".into();
    assert_eq!(
        launch_plan_for(&g, true, None).unwrap(),
        LaunchPlan::Spawn { program: "/g/a.exe".into(), working_dir: None, args: None }
    );
}

#[test]
fn launching_reads_the_disk() {
    let mut store = store_with(&["a", "b", "c"]);
    store.games[0].path = "/".into();
    store.games[0].working_dir = " / ".into();
    store.games[1].path = "/no/such/game.exe".into();
    store.games[2].path = "".into();
    assert_eq!(
        store.plan_launch("a").unwrap(),
        LaunchPlan::Spawn { program: "/".into(), working_dir: Some("/".into()), args: None }
    );
    assert!(matches!(store.plan_launch("b"), Err(GameStoreError::FileNotFound(_))));
    assert!(matches!(store.plan_launch("c"), Err(GameStoreError::EmptyLaunchPath)));
    assert!(matches!(store.plan_launch("x"), Err(GameStoreError::NotFound)));
}

#[test]
fn working_dir_prefers_an_existing_setting() {
    let mut g = game("a");
    g.working_dir = "  /w  ".into();
    assert_eq!(working_dir_choice(&g, "/g/a.exe", true), Some("/w".into()));
    assert_eq!(working_dir_choice(&g, "/g/a.exe", false), Some("/g".into()));
    g.working_dir = String::new();
    assert_eq!(working_dir_choice(&g, "/g/a.exe", true), Some("/g".into()));
}

#[test]
fn game_ids_are_simple_uuids() {
    let store = GameStore::new("/app");
    let (a, plan_a) = store.plan_new_game("");
    let (b, _) = store.plan_new_game("/no/such/icon.png");
    assert_eq!(plan_a, IconCopy::Skip);
    assert_eq!(a.len(), 32);
    assert!(a.chars().all(|c| c.is_ascii_digit() || ('a'..='f').contains(&c)));
    assert_ne!(a, b);
}

#[test]
fn icon_copy_plans_name_the_target_after_the_game() {
    let store = GameStore::new("/app");
    assert_eq!(store.icon_copy_plan("  ", true, "g", "s"), IconCopy::Skip);
    assert_eq!(store.icon_copy_plan("/p/a.png", false, "g", "s"), IconCopy::Skip);
    assert_eq!(store.icon_copy_plan("/p/a.txt", true, "g", "s"), IconCopy::Skip);
    assert_eq!(store.icon_copy_plan("/p/noext", true, "g", "s"), IconCopy::Skip);
    assert_eq!(
        store.icon_copy_plan(" /p/a.PNG ", true, "g", "s"),
        IconCopy::CopyFile { source: "/p/a.PNG".into(), target: "/app/icons/g-s.png".into() }
    );
    assert_eq!(
        store.icon_copy_plan("/p/a.Ico", true, "g", "s"),
        IconCopy::ConvertIco { source: "/p/a.Ico".into(), target: "/app/icons/g-s.png".into() }
    );
    assert_eq!(
        store.icon_copy_plan("/p/a.pgm", true, "g", "s"),
        IconCopy::CopyFile { source: "/p/a.pgm".into(), target: "/app/icons/g-s.pgm".into() }
    );
}

#[test]
fn icon_copy_plan_reads_the_disk_and_draws_a_suffix() {
    let store = GameStore::new("/app");
    assert_eq!(store.plan_icon_copy("/no/such/icon.png", "g"), IconCopy::Skip);
    assert_eq!(store.plan_icon_copy("/", "g"), IconCopy::Skip);
    assert_eq!(store.plan_icon_copy("", "g"), IconCopy::Skip);
}

#[test]
fn ico_files_convert_to_png() {
    let mut ico = Vec::new();
    let pixels = vec![255u8; 2 * 2 * 4];
    image::codecs::ico::IcoEncoder::new(&mut ico)
        .encode(&pixels, 2, 2, image::ColorType::Rgba8)
        .unwrap();
    let png = convert_ico_to_png(&ico).unwrap();
    assert_eq!(&png[..8], &[0x89, b'P', b'N', b'G', b'\r', b'\n', 0x1a, b'\n']);
    assert_ne!(png, ico);
}

#[test]
fn broken_ico_files_are_refused() {
    assert!(matches!(convert_ico_to_png(b"not an icon"), Err(GameStoreError::Image(_))));
}

#[test]
fn blank_and_uri_paths_are_marked_without_the_disk() {
    assert!(!GameStore::path_mark("   ", true));
    assert!(GameStore::path_mark(" steam://run/1 ", false));
    assert!(GameStore::path_mark("/g/a.exe", true));
    assert!(!GameStore::path_mark("/g/a.exe", false));
    assert!(!GameStore::path_exists_for_display(""));
    assert!(GameStore::path_exists_for_display("https://example.org"));
    assert!(GameStore::path_exists_for_display(" / "));
    assert!(!GameStore::path_exists_for_display("/no/such/game.exe"));
}
