use game_launcher::drop_resolve::{
    normalize_icon_path_for_preview, resolve_drop_path, resolve_lnk, resolve_url_shortcut,
    DropResolution, ResolvedDrop, ShellLinkFields,
};

fn entry(name: &str, target: &str) -> ResolvedDrop {
    ResolvedDrop {
        name: name.to_string(),
        target_path: target.to_string(),
        icon_source: String::new(),
        working_dir: String::new(),
        launch_args: String::new(),
    }
}

#[test]
fn steam_uri_resolves_to_a_steam_entry() {
    let r = resolve_drop_path("steam://rungameid/570").unwrap();
    assert_eq!(r, DropResolution::Resolved(entry("Steam 570", "steam://rungameid/570")));
}

#[test]
fn web_uri_resolves_to_a_link_named_after_its_last_segment() {
    let r = resolve_drop_path("https://example.com/play").unwrap();
    assert_eq!(r, DropResolution::Resolved(entry("Link play", "https://example.com/play")));
    let r = resolve_drop_path("mailto:me@example.com").unwrap();
    assert_eq!(r, DropResolution::Resolved(entry("Link mailto:me@example.com", "mailto:me@example.com")));
}

#[test]
fn executables_are_named_after_their_file_stem() {
    let r = resolve_drop_path("/games/Doom/DOOM.EXE").unwrap();
    assert_eq!(r, DropResolution::Resolved(entry("DOOM", "/games/Doom/DOOM.EXE")));
}

#[test]
fn shortcuts_ask_for_their_contents() {
    assert_eq!(resolve_drop_path("/desk/Game.LNK").unwrap(), DropResolution::ShellLink);
    assert_eq!(resolve_drop_path("/desk/Site.url").unwrap(), DropResolution::UrlShortcut);
}

#[test]
fn other_files_are_refused() {
    assert_eq!(resolve_drop_path("/desk/readme.txt").unwrap_err(), "unsupported file type");
    assert_eq!(resolve_drop_path("").unwrap_err(), "unsupported file type");
}

#[test]
fn shell_link_fields_are_trimmed_and_the_icon_index_dropped() {
    let link = ShellLinkFields {
        link_target: Some("C:\\Games\\x.exe".to_string()),
        icon_location: Some(" \"C:\\Icons\\x.ico\" ,0".to_string()),
        working_dir: Some("  C:\\Games ".to_string()),
        arguments: Some(" -fullscreen ".to_string()),
    };
    let d = resolve_lnk("/desk/My Game.lnk", link).unwrap();
    assert_eq!(d.name, "My Game");
    assert_eq!(d.target_path, "C:\\Games\\x.exe");
    assert_eq!(d.icon_source, "C:\\Icons\\x.ico");
    assert_eq!(d.working_dir, "C:\\Games");
    assert_eq!(d.launch_args, "-fullscreen");
}

#[test]
fn shell_link_without_optional_fields_leaves_them_empty() {
    let link = ShellLinkFields {
        link_target: Some("C:\\a.exe".to_string()),
        icon_location: None,
        working_dir: None,
        arguments: None,
    };
    let d = resolve_lnk("/desk/a.lnk", link).unwrap();
    assert_eq!(d, ResolvedDrop {
        name: "a".to_string(),
        target_path: "C:\\a.exe".to_string(),
        icon_source: String::new(),
        working_dir: String::new(),
        launch_args: String::new(),
    });
}

#[test]
fn shell_link_without_target_is_refused() {
    for target in [None, Some("   ".to_string())] {
        let link = ShellLinkFields {
            link_target: target,
            icon_location: None,
            working_dir: None,
            arguments: None,
        };
        assert_eq!(resolve_lnk("/desk/a.lnk", link).unwrap_err(), "shortcut has no resolved target");
    }
}

#[test]
fn internet_shortcut_gives_its_url_and_icon() {
    let raw = "[InternetShortcut]\r\nURL=steam://rungameid/10\r\nIconFile=\"C:\\Icons\\cs.ico\"\r\nIconIndex=0\r\n";
    let d = resolve_url_shortcut("/desk/Counter-Strike.url", raw).unwrap();
    assert_eq!(d.name, "Counter-Strike");
    assert_eq!(d.target_path, "steam://rungameid/10");
    assert_eq!(d.icon_source, "C:\\Icons\\cs.ico");
    assert_eq!(d.working_dir, "");
    assert_eq!(d.launch_args, "");
}

#[test]
fn internet_shortcut_keys_ignore_case_and_the_last_one_wins() {
    let raw = "  url = first\nUrl=  second  \niconfile=a\nICONFILE= \"b\" ";
    let d = resolve_url_shortcut("/desk/x.url", raw).unwrap();
    assert_eq!(d.target_path, "second");
    assert_eq!(d.icon_source, "b");
}

#[test]
fn internet_shortcut_without_url_is_refused() {
    let e = resolve_url_shortcut("/desk/x.url", "[InternetShortcut]\nIconFile=a.ico\n").unwrap_err();
    assert_eq!(e, "no URL= in /desk/x.url");
    let e = resolve_url_shortcut("/desk/y.url", "").unwrap_err();
    assert_eq!(e, "no URL= in /desk/y.url");
    let e = resolve_url_shortcut("/desk/z.url", "URL=   \n").unwrap_err();
    assert_eq!(e, "no URL= in /desk/z.url");
}

#[test]
fn icon_preview_path_keeps_absolute_paths_and_joins_relative_ones() {
    assert_eq!(normalize_icon_path_for_preview("  /abs/i.png ", "/cfg"), "/abs/i.png");
    assert_eq!(normalize_icon_path_for_preview("icons/a.png", "/cfg"), "/cfg/icons/a.png");
}
