use wispr_flow_linux_helper::backend::wayland::{
    chord, clipboard_fallback, clipboard_get, clipboard_offers, copy_keys, options_tool, paste_keys,
    remap_modifier, simulate_key_press, swaps_left_alt_control, COPY_SETTLE_MS, PASTE_SETTLE_MS,
};
use wispr_flow_linux_helper::keymap;
use wispr_flow_linux_helper::paste::{ctrl_shift_v, ctrl_v, PasteChord};

#[test]
fn left_alt_control_swap_preserves_other_keys_and_default_mapping() {
    let ctrl = keymap::flag_to_evdev("Control").unwrap();
    let alt = keymap::flag_to_evdev("Alt").unwrap();
    assert_eq!(remap_modifier(ctrl, true), alt);
    assert_eq!(remap_modifier(alt, true), ctrl);
    for key in 0..=0x2ff {
        assert_eq!(remap_modifier(key, false), key);
        if key != ctrl && key != alt {
            assert_eq!(remap_modifier(key, true), key);
        }
    }
}

#[test]
fn swapping_twice_changes_nothing() {
    for key in 0..=0x2ff {
        assert_eq!(remap_modifier(remap_modifier(key, true), true), key);
    }
}

#[test]
fn chord_maps_key_and_modifiers() {
    let plain = chord(56, &[29, 42], false);
    assert_eq!((plain.key, plain.mods), (56, vec![29, 42]));
    let swapped = chord(56, &[29, 42], true);
    assert_eq!((swapped.key, swapped.mods), (29, vec![56, 42]));
}

#[test]
fn swap_needs_gnome_and_the_quoted_option() {
    let options = "['compose:ralt', 'ctrl:swap_lalt_lctl']\n";
    assert!(swaps_left_alt_control(true, Some(options)));
    assert!(!swaps_left_alt_control(false, Some(options)));
    assert!(!swaps_left_alt_control(true, None));
    assert!(!swaps_left_alt_control(true, Some("['ctrl:swap_lalt_lctl_lwin']")));
    assert!(!swaps_left_alt_control(true, Some("@as []")));
    assert!(swaps_left_alt_control(true, Some("ctrl:swap_lalt_lctl")));
}

#[test]
fn wayland_key_press_takes_named_modifiers() {
    let flags = vec!["Shift".to_string(), "Hyper".to_string(), "Meta".to_string()];
    let keys = simulate_key_press(65, &flags, false).unwrap();
    assert_eq!((keys.key, keys.mods), (30, vec![42, 125]));
    assert_eq!(
        simulate_key_press(7, &[], false).unwrap_err(),
        "unmapped VK 7 (no evdev code)"
    );
}

#[test]
fn wayland_paste_keys_follow_the_chord() {
    let keys = paste_keys(&ctrl_v(), false).unwrap();
    assert_eq!((keys.key, keys.mods), (47, vec![29]));
    let keys = paste_keys(&ctrl_shift_v(), false).unwrap();
    assert_eq!((keys.key, keys.mods), (47, vec![29, 42]));
    let keys = paste_keys(&ctrl_v(), true).unwrap();
    assert_eq!((keys.key, keys.mods), (47, vec![56]));
    let odd = PasteChord { key_vk: 7, flags: &[] };
    assert_eq!(paste_keys(&odd, false).unwrap_err(), "unmapped paste key VK 7");
}

#[test]
fn wayland_copy_presses_control_c() {
    let keys = copy_keys(false);
    let flags = vec!["Control".to_string()];
    let pressed = simulate_key_press(u32::from(b'C'), &flags, false).unwrap();
    assert_eq!((keys.key, keys.mods), (pressed.key, pressed.mods));
    let keys = copy_keys(true);
    assert_eq!((keys.key, keys.mods), (46, vec![56]));
}

#[test]
fn offers_hold_plain_text_and_html() {
    let offers = clipboard_offers("é", None);
    assert_eq!(offers.len(), 1);
    assert_eq!(offers[0].mime, "text/plain;charset=utf-8");
    assert_eq!(offers[0].data, vec![0xc3, 0xa9]);
    let offers = clipboard_offers("a", Some("<b>a</b>"));
    assert_eq!(offers.len(), 2);
    assert_eq!(offers[0].data, b"a".to_vec());
    assert_eq!(offers[1].mime, "text/html");
    assert_eq!(offers[1].data, b"<b>a</b>".to_vec());
}

#[test]
fn refused_offers_fall_back_to_a_tool() {
    let tool = clipboard_fallback(true, "no protocol").unwrap();
    assert_eq!(tool.program, "wl-copy");
    assert_eq!(tool.args, vec!["--type", "text/plain;charset=utf-8"]);
    assert_eq!(
        clipboard_fallback(false, "no protocol").unwrap_err(),
        "clipboard set failed (no protocol) and no wl-copy fallback"
    );
}

#[test]
fn wayland_clipboard_is_read_with_a_tool() {
    let tool = clipboard_get(true).unwrap();
    assert_eq!((tool.program, tool.args), ("wl-paste", vec!["-n"]));
    assert_eq!(clipboard_get(false).unwrap_err(), "wl-paste not available");
}

#[test]
fn keyboard_options_are_asked_of_the_session() {
    let tool = options_tool();
    assert_eq!(tool.program, "gsettings");
    assert_eq!(
        tool.args,
        vec!["get", "org.gnome.desktop.input-sources", "xkb-options"]
    );
}

#[test]
fn wayland_waits_are_as_documented() {
    assert_eq!(PASTE_SETTLE_MS, 30);
    assert_eq!(COPY_SETTLE_MS, 80);
}
