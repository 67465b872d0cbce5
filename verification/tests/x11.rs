use std::collections::{BTreeSet, HashMap};

use wispr_flow_linux_helper::backend::x11::{
    active_app, build_keysym_map, clipboard_get, clipboard_set, copy_keys, describe_app,
    fake_key_type, first_number, keycode_count, keycode_for_vk, list_window, paste_keys,
    press_chord, property_number, property_window, property_windows, running_apps,
    simulate_key_press, title_text, window_class, window_number, window_title, FakeKey,
    WindowProperties,
};
use wispr_flow_linux_helper::paste::{ctrl_shift_v, ctrl_v, PasteChord};

fn bytes_of(numbers: &[u32]) -> Vec<u8> {
    numbers.iter().flat_map(|n| n.to_ne_bytes()).collect()
}

fn window(class: &[u8], title: &[u8]) -> WindowProperties {
    WindowProperties {
        wm_class: Some(class.to_vec()),
        net_wm_name: Some(title.to_vec()),
        wm_name: None,
    }
}

fn down(keycode: u8) -> FakeKey {
    FakeKey { keycode, press: true }
}

fn up(keycode: u8) -> FakeKey {
    FakeKey { keycode, press: false }
}

fn sample_map() -> HashMap<u32, u8> {
    HashMap::from([(0x76, 55), (0x63, 54), (0xffe3, 37), (0xffe1, 50)])
}

#[test]
fn properties_hold_numbers_in_machine_order() {
    assert_eq!(property_number(32, bytes_of(&[0x0102_0304, 9])), Some(0x0102_0304));
    assert_eq!(property_number(32, vec![1, 2, 3]), None);
    assert_eq!(property_number(8, bytes_of(&[5])), None);
    assert_eq!(property_number(0, Vec::new()), None);
}

#[test]
fn window_zero_is_no_window() {
    assert_eq!(property_window(32, bytes_of(&[0])), None);
    assert_eq!(property_window(32, bytes_of(&[0x0040_0001])), Some(0x0040_0001));
    assert_eq!(property_window(16, bytes_of(&[7])), None);
    assert_eq!(window_number(Some(0)), None);
    assert_eq!(window_number(Some(3)), Some(3));
    assert_eq!(window_number(None), None);
}

#[test]
fn window_lists_drop_bytes_left_over() {
    let mut value = bytes_of(&[1, 2, 0x8000_0003]);
    value.push(4);
    assert_eq!(property_windows(32, value), vec![1, 2, 0x8000_0003]);
    assert_eq!(property_windows(8, bytes_of(&[1])), Vec::<u32>::new());
}

#[test]
fn first_of_the_numbers_is_taken() {
    assert_eq!(first_number(&Some(vec![4, 5])), Some(4));
    assert_eq!(first_number(&Some(Vec::new())), None);
    assert_eq!(first_number(&None), None);
}

#[test]
fn class_holds_instance_and_class() {
    let read = |b: &[u8]| window_class(&Some(b.to_vec()));
    let pair = |a: &str, b: &str| (a.to_string(), b.to_string());
    assert_eq!(read(b"navigator\0Firefox\0"), pair("navigator", "Firefox"));
    assert_eq!(read(b"xterm\0"), pair("xterm", "xterm"));
    assert_eq!(read(b"\0\0a\0\0b\0c"), pair("a", "b"));
    assert_eq!(read(b""), pair("", ""));
    assert_eq!(read(b"a\0\xff\xfe\0"), pair("a", ""));
    assert_eq!(read(b"\xff\0b\0"), pair("", "b"));
    assert_eq!(window_class(&None), pair("", ""));
}

#[test]
fn newer_title_comes_first() {
    let new = Some("neu – ü".as_bytes().to_vec());
    let old = Some(b"old".to_vec());
    assert_eq!(window_title(&new, &old), "neu – ü");
    assert_eq!(window_title(&Some(Vec::new()), &old), "old");
    assert_eq!(window_title(&None, &old), "old");
    assert_eq!(window_title(&None, &Some(Vec::new())), "");
    assert_eq!(window_title(&None, &None), "");
}

#[test]
fn titles_may_hold_more_than_text() {
    assert_eq!(window_title(&Some(b"a\xffb".to_vec()), &None), "a\u{fffd}b");
    assert_eq!(window_title(&Some(b"\0\0a\0b\0".to_vec()), &None), "a\0b");
    assert_eq!(title_text("\0\0"), "");
    assert_eq!(title_text("plain"), "plain");
}

#[test]
fn process_name_replaces_the_class_as_name() {
    let win = window(b"navigator\0Firefox\0", b"Page");
    let app = active_app(Some(&win), Some("firefox-bin\n"));
    assert_eq!(app.app_name, "firefox-bin");
    assert_eq!(app.bundle_id, "Firefox");
    assert_eq!(app.window_title, "Page");
    assert_eq!(app.url, "");
    assert_eq!(active_app(Some(&win), Some(" \n")).app_name, "Firefox");
    assert_eq!(active_app(Some(&win), None).app_name, "Firefox");
    let app = describe_app("C".to_string(), "T".to_string(), None);
    assert_eq!((app.app_name.as_str(), app.bundle_id.as_str()), ("C", "C"));
}

#[test]
fn no_active_window_is_a_blank_app() {
    let app = active_app(None, Some("ignored"));
    assert_eq!(app.app_name, "");
    assert_eq!(app.bundle_id, "");
    assert_eq!(app.window_title, "");
    assert_eq!(app.url, "");
}

#[test]
fn each_class_is_listed_once() {
    let windows = vec![
        window(b"a\0A\0", b"first"),
        window(b"b\0B\0", b""),
        window(b"a\0A\0", b"second"),
        window(b"", b"nameless"),
        WindowProperties { wm_class: None, net_wm_name: None, wm_name: None },
    ];
    let apps = running_apps(&windows);
    let listed: Vec<(&str, &str)> =
        apps.iter().map(|a| (a.bundle_id.as_str(), a.name.as_str())).collect();
    assert_eq!(listed, vec![("A", "first"), ("B", "B")]);
    assert!(running_apps(&Vec::new()).is_empty());
    let mut apps = apps;
    list_window(&mut apps, "B".to_string(), "again".to_string());
    list_window(&mut apps, "C".to_string(), "third".to_string());
    assert_eq!(apps.len(), 3);
    assert_eq!(apps[2].name, "third");
}

#[test]
fn keycodes_are_counted_with_both_ends() {
    assert_eq!(keycode_count(8, 255), 248);
    assert_eq!(keycode_count(9, 9), 1);
}

#[test]
fn first_keycode_with_a_keysym_wins() {
    let map = build_keysym_map(8, 2, &[0, 0, 0x61, 0x41, 0x62, 0x61, 0x63]);
    let expected = HashMap::from([(0x61, 9), (0x41, 9), (0x62, 10), (0x63, 11)]);
    assert_eq!(map, expected);
    assert!(build_keysym_map(8, 0, &[1, 2]).is_empty());
    assert!(build_keysym_map(255, 1, &[]).is_empty());
    assert_eq!(build_keysym_map(255, 3, &[7, 8, 9])[&9], 255);
}

#[test]
fn chord_goes_down_and_comes_up_in_reverse() {
    let keys = press_chord(&sample_map(), 0x76, &[0xffe3, 0xffeb, 0xffe1]).unwrap();
    assert_eq!(keys, vec![down(37), down(50), down(55), up(55), up(50), up(37)]);
    let mut held = BTreeSet::new();
    for key in keys {
        if key.press {
            held.insert(key.keycode);
        } else {
            held.remove(&key.keycode);
        }
    }
    assert!(held.is_empty());
    assert_eq!(
        press_chord(&sample_map(), 0xff0d, &[]).unwrap_err(),
        "no keycode for keysym 0xff0d"
    );
}

#[test]
fn x11_key_press_errors_name_the_key() {
    let map = sample_map();
    assert_eq!(keycode_for_vk(&map, 86), Ok(55));
    assert_eq!(
        keycode_for_vk(&map, 13).unwrap_err(),
        "no keycode for keysym 0xff0d (VK 13)"
    );
    assert_eq!(keycode_for_vk(&map, 7).unwrap_err(), "unmapped VK 7");
    assert_eq!(simulate_key_press(&map, 7, &[]).unwrap_err(), "unmapped VK 7");
    assert_eq!(
        simulate_key_press(&map, 13, &[]).unwrap_err(),
        "no keycode for keysym 0xff0d (VK 13)"
    );
    let flags = vec!["Control".to_string(), "none".to_string()];
    assert_eq!(
        simulate_key_press(&map, 86, &flags).unwrap(),
        vec![down(37), down(55), up(55), up(37)]
    );
}

#[test]
fn x11_paste_keys_follow_the_chord() {
    let map = sample_map();
    assert_eq!(
        paste_keys(&map, &ctrl_v()).unwrap(),
        vec![down(37), down(55), up(55), up(37)]
    );
    assert_eq!(
        paste_keys(&map, &ctrl_shift_v()).unwrap(),
        vec![down(37), down(50), down(55), up(55), up(50), up(37)]
    );
    let odd = PasteChord { key_vk: 7, flags: &[] };
    assert_eq!(paste_keys(&map, &odd).unwrap_err(), "unmapped paste key VK 7");
    assert_eq!(
        paste_keys(&HashMap::new(), &ctrl_v()).unwrap_err(),
        "no keycode for keysym 0x76"
    );
}

#[test]
fn x11_copy_presses_control_c() {
    let map = sample_map();
    let flags = vec!["Control".to_string()];
    assert_eq!(copy_keys(&map).unwrap(), vec![down(37), down(54), up(54), up(37)]);
    assert_eq!(
        copy_keys(&map).unwrap(),
        simulate_key_press(&map, u32::from(b'C'), &flags).unwrap()
    );
}

#[test]
fn fake_keys_have_event_types() {
    assert_eq!(fake_key_type(true), 2);
    assert_eq!(fake_key_type(false), 3);
}

#[test]
fn xclip_comes_before_xsel() {
    let tool = clipboard_set(true, true).unwrap();
    assert_eq!((tool.program, tool.args), ("xclip", vec!["-selection", "clipboard"]));
    let tool = clipboard_set(false, true).unwrap();
    assert_eq!((tool.program, tool.args), ("xsel", vec!["--clipboard", "--input"]));
    let tool = clipboard_get(true, false).unwrap();
    assert_eq!((tool.program, tool.args), ("xclip", vec!["-selection", "clipboard", "-o"]));
    let tool = clipboard_get(false, true).unwrap();
    assert_eq!((tool.program, tool.args), ("xsel", vec!["--clipboard", "--output"]));
    let missing = "no clipboard tool (xclip/xsel) available";
    assert_eq!(clipboard_set(false, false).unwrap_err(), missing);
    assert_eq!(clipboard_get(false, false).unwrap_err(), missing);
}
