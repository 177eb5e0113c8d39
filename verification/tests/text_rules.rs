use game_launcher::shared::{is_gate_open, is_steam_uri, is_uri};
use game_launcher::text::{
    after_first_char, after_last_char, before_first_char, join_strings, lower_contains,
    lower_ends_with, lower_starts_with, same_text,
    trim_matches_char, trim_str,
};

#[test]
fn trim_drops_unicode_whitespace_at_both_ends() {
    assert_eq!(trim_str("\u{3000}\t a b \u{a0}\n"), "a b");
    assert_eq!(trim_str("   "), "");
    assert_eq!(trim_str(""), "");
    assert_eq!(trim_str("x"), "x");
}

#[test]
fn trim_is_idempotent() {
    for s in ["  a  ", "\u{2003}b\u{2003}", "c", "", " \u{85} "] {
        let once = trim_str(s);
        assert_eq!(trim_str(&once), once);
    }
}

#[test]
fn trim_matches_strips_every_copy_at_both_ends() {
    assert_eq!(trim_matches_char("\"\"C:\\a.ico\"", '"'), "C:\\a.ico");
    assert_eq!(trim_matches_char("\"\"", '"'), "");
    assert_eq!(trim_matches_char("a\"b", '"'), "a\"b");
}

#[test]
fn splitting_helpers_follow_split_and_rsplit() {
    assert_eq!(before_first_char("a.ico,3", ','), "a.ico");
    assert_eq!(before_first_char("no comma", ','), "no comma");
    assert_eq!(after_first_char("URL=a=b", '='), Some("a=b".to_string()));
    assert_eq!(after_first_char("none", '='), None);
    assert_eq!(after_last_char("steam://rungameid/570", '/'), "570");
    assert_eq!(after_last_char("plain", '/'), "plain");
    assert_eq!(after_last_char("ends/", '/'), "");
}

#[test]
fn case_folding_comparisons_fold_ascii_only() {
    assert!(lower_starts_with("MailTo:x", "mailto:"));
    assert!(lower_ends_with("GAME.LNK", ".lnk"));
    assert!(!lower_ends_with("lnk", ".lnk"));
    assert!(lower_contains("HTTPS://x", "://"));
    assert!(!lower_contains("abc", "abcd"));
    assert!(lower_contains("abc", ""));
    assert!(same_text("a", "a"));
    assert!(!same_text("a", "ab"));
}

#[test]
fn join_puts_the_separator_between_neighbours() {
    let parts = vec!["a".to_string(), "b".to_string(), "c".to_string()];
    assert_eq!(join_strings(&parts, "\n\n"), "a\n\nb\n\nc");
    assert_eq!(join_strings(&parts[..1], "-"), "a");
    assert_eq!(join_strings(&[], "-"), "");
}

#[test]
fn uris_are_recognised_after_trimming_and_case_folding() {
    assert!(is_uri("https://example.com"));
    assert!(is_uri("  MAILTO:someone@example.com "));
    assert!(is_uri("steam://rungameid/570"));
    assert!(!is_uri(""));
    assert!(!is_uri("   "));
    assert!(!is_uri("C:\\Games\\game.exe"));
    assert!(!is_uri("mail:to"));
}

#[test]
fn steam_uris_are_recognised() {
    assert!(is_steam_uri(" STEAM://rungameid/10"));
    assert!(!is_steam_uri("https://store.steampowered.com"));
    assert!(!is_steam_uri("steam:/broken"));
}

#[test]
fn every_steam_uri_is_a_uri() {
    for s in ["steam://run/1", "  Steam://x", "STEAM://"] {
        assert!(is_steam_uri(s));
        assert!(is_uri(s));
    }
}

#[test]
fn the_gate_is_always_open() {
    assert!(is_gate_open("/tmp"));
    assert!(is_gate_open(""));
}
