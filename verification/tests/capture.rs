use std::collections::HashSet;

use wispr_flow_linux_helper::capture::{
    bit_set, change_of, decode_keys, eviocgbit_key, eviocgkey, eviocgname, held_vks, ioc_read,
    is_capture_device, is_event_node, is_keyboard, is_own_injection_device, settle_claim,
    should_open, KeyChange, Watched,
};
use wispr_flow_linux_helper::event::{
    encode_event, native_layout, ByteOrder, InputEvent, Layout, BITMAP_LEN,
};

fn bitmap(codes: &[u16]) -> Vec<u8> {
    let mut map = vec![0u8; BITMAP_LEN];
    for code in codes {
        map[usize::from(*code) / 8] |= 1 << (code % 8);
    }
    map
}

fn name(text: &[u8]) -> Vec<u8> {
    let mut buf = vec![0u8; 80];
    buf[..text.len()].copy_from_slice(text);
    buf
}

#[test]
fn requests_have_the_kernel_numbers() {
    assert_eq!(ioc_read(0x18, 96), 0x8060_4518);
    assert_eq!(eviocgkey(), 0x8060_4518);
    assert_eq!(eviocgbit_key(), 0x8060_4521);
    assert_eq!(eviocgname(), 0x8050_4506);
}

#[test]
fn bits_are_counted_from_the_low_end() {
    let map = bitmap(&[0, 30, 0x2ff]);
    for code in 0..=0x400u16 {
        assert_eq!(bit_set(&map, code), [0, 30, 0x2ff].contains(&code), "{code}");
    }
    assert!(!bit_set(&[], 0));
}

#[test]
fn event_nodes_go_by_their_name() {
    assert!(is_event_node(Some("event0")));
    assert!(is_event_node(Some("event")));
    assert!(!is_event_node(Some("mouse0")));
    assert!(!is_event_node(Some("xevent0")));
    assert!(!is_event_node(None));
}

#[test]
fn keyboards_have_letters() {
    assert!(is_keyboard(Some(&bitmap(&[30, 44]))));
    assert!(!is_keyboard(Some(&bitmap(&[30]))));
    assert!(!is_keyboard(Some(&bitmap(&[44, 0x110]))));
    assert!(!is_keyboard(None));
}

#[test]
fn own_device_is_recognised_by_name() {
    assert!(is_own_injection_device(Some(&name(b"Wispr Flow Linux Helper"))));
    assert!(is_own_injection_device(Some(b"Wispr Flow Linux Helper")));
    assert!(!is_own_injection_device(Some(&name(b"Wispr Flow Linux Helper 2"))));
    assert!(!is_own_injection_device(Some(&name(b"Wispr Flow Linux"))));
    assert!(!is_own_injection_device(None));
    let letters = bitmap(&[30, 44]);
    assert!(is_capture_device(Some(&letters), Some(&name(b"Keyboard"))));
    assert!(is_capture_device(Some(&letters), None));
    assert!(!is_capture_device(Some(&letters), Some(&name(b"Wispr Flow Linux Helper"))));
    assert!(!is_capture_device(None, None));
}

#[test]
fn only_presses_and_releases_count() {
    let event = |type_, code, value| InputEvent { type_, code, value };
    assert_eq!(change_of(event(1, 30, 1)), Some(KeyChange { vk: 65, press: true }));
    assert_eq!(change_of(event(1, 30, 0)), Some(KeyChange { vk: 65, press: false }));
    assert_eq!(change_of(event(1, 30, 2)), None);
    assert_eq!(change_of(event(0, 30, 1)), None);
    assert_eq!(change_of(event(1, 0x2ff, 1)), None);
}

#[test]
fn reads_are_decoded_event_by_event() {
    let narrow = Layout { time_size: 8, order: ByteOrder::HighFirst };
    for layout in [native_layout(), narrow] {
        let size = layout.time_size + 8;
        let mut buf = Vec::new();
        for (type_, code, value) in [(1, 30, 1), (0, 0, 0), (1, 30, 2), (1, 30, 0), (1, 48, 1)] {
            buf.extend(encode_event(InputEvent { type_, code, value }, layout));
        }
        let a = |press| KeyChange { vk: 65, press };
        let b = KeyChange { vk: 66, press: true };
        let keys = |bytes: &[u8], n| decode_keys(bytes, n, layout);
        assert_eq!(keys(&buf, buf.len()), vec![a(true), a(false), b]);
        assert_eq!(keys(&buf, buf.len() - 1), vec![a(true), a(false)]);
        assert_eq!(keys(&buf, size), vec![a(true)]);
        assert_eq!(keys(&buf, size - 1), Vec::new());
        assert_eq!(keys(&buf, 0), Vec::new());
        let mut parts = keys(&buf[..2 * size], 2 * size);
        parts.extend(keys(&buf[2 * size..], 3 * size));
        assert_eq!(parts, keys(&buf, buf.len()));
    }
}

#[test]
fn held_keys_come_from_all_devices() {
    let held = held_vks(&vec![bitmap(&[30, 29]), bitmap(&[42, 0x2ff])]);
    assert_eq!(held, HashSet::from([65, 162, 160]));
    assert!(held_vks(&Vec::new()).is_empty());
}

#[test]
fn nodes_are_claimed_and_released() {
    let mut watched = Watched::new();
    let path = "/dev/input/event3";
    assert!(should_open(&watched, Some("event3"), path));
    watched.claim(path);
    watched.claim(path);
    assert!(watched.contains(path));
    assert!(!should_open(&watched, Some("event3"), path));
    assert!(should_open(&watched, Some("event4"), "/dev/input/event4"));
    watched.release(path);
    assert!(!watched.contains(path));
    assert!(should_open(&watched, Some("event3"), path));
    watched.claim(path);
    assert_eq!(settle_claim(&mut watched, path, true, 2), 3);
    assert!(watched.contains(path));
    assert_eq!(settle_claim(&mut watched, path, false, 3), 3);
    assert!(!watched.contains(path));
}
