use wispr_flow_linux_helper::paste::{
    chord, ctrl_shift_v, ctrl_v, flag_names, looks_like_terminal, parse, resolve,
    set_focused_is_terminal, PasteFocus, PASTE_KEYS_ENV,
};

#[test]
fn defaults_to_ctrl_v() {
    assert_eq!(resolve("", false), Ok(ctrl_v()));
}

#[test]
fn env_override_wins_over_terminal_detection() {
    assert_eq!(resolve("ctrl+v", true), Ok(ctrl_v()));
    assert_eq!(resolve("ctrl+shift+v", false), Ok(ctrl_shift_v()));
}

#[test]
fn terminal_gets_ctrl_shift_v() {
    assert_eq!(resolve("", true), Ok(ctrl_shift_v()));
}

#[test]
fn rejects_other_chords() {
    assert!(parse("ctrl+x").is_err());
}

#[test]
fn detects_terminals() {
    assert!(looks_like_terminal("kitty", "kitty"));
    assert!(looks_like_terminal("", "org.kde.konsole.desktop"));
    assert!(looks_like_terminal("", "com.mitchellh.ghostty.desktop"));
    assert!(looks_like_terminal("Alacritty", "Alacritty"));
    assert!(looks_like_terminal("st", "st-256color"));
}

#[test]
fn ignores_non_terminals() {
    assert!(!looks_like_terminal("firefox", "firefox.desktop"));
    // "st" must not substring-match arbitrary names:
    assert!(!looks_like_terminal("Star Editor", "star.desktop"));
    assert!(!looks_like_terminal("Steam", "steam.desktop"));
}

#[test]
fn settings_are_read_loosely() {
    assert_eq!(parse(" Ctrl+V\n"), Ok(ctrl_v()));
    assert_eq!(parse("CTRL+SHIFT+V"), Ok(ctrl_shift_v()));
    assert_eq!(parse("  "), Ok(ctrl_v()));
    assert_eq!(
        parse("ctrl + v").unwrap_err(),
        "WISPR_LINUX_HELPER_PASTE_KEYS supports ctrl+v and ctrl+shift+v"
    );
    assert_eq!(PASTE_KEYS_ENV, "WISPR_LINUX_HELPER_PASTE_KEYS");
    assert_eq!(resolve(" \t", true), Ok(ctrl_shift_v()));
}

#[test]
fn chord_follows_setting_and_focus() {
    let mut focus = PasteFocus::new();
    assert_eq!(chord(None, &focus), Ok(ctrl_v()));
    set_focused_is_terminal(&mut focus, true);
    assert_eq!(chord(None, &focus), Ok(ctrl_shift_v()));
    assert_eq!(chord(Some(""), &focus), Ok(ctrl_shift_v()));
    assert_eq!(chord(Some("ctrl+v"), &focus), Ok(ctrl_v()));
    set_focused_is_terminal(&mut focus, false);
    assert_eq!(chord(Some("ctrl+shift+v"), &focus), Ok(ctrl_shift_v()));
    assert!(chord(Some("x"), &focus).is_err());
}

#[test]
fn chords_name_their_modifiers() {
    assert_eq!(flag_names(&ctrl_v()), vec!["Control"]);
    assert_eq!(flag_names(&ctrl_shift_v()), vec!["Control", "Shift"]);
    assert_eq!(ctrl_v().key_vk, 86);
}

#[test]
fn terminal_detection_ignores_case() {
    for (name, id) in [("KITTY", ""), ("", "ORG.KDE.KONSOLE.DESKTOP"), ("St-256Color", "")] {
        assert_eq!(
            looks_like_terminal(name, id),
            looks_like_terminal(&name.to_ascii_lowercase(), &id.to_ascii_lowercase())
        );
    }
    assert!(looks_like_terminal("KITTY", ""));
}
