use wispr_flow_linux_helper::keymap::{
    evdev_to_vk, flag_to_evdev, flag_to_keysym, flags_to_evdev, flags_to_keysyms, vk_to_evdev,
    vk_to_keysym,
};

#[test]
fn evdev_vk_roundtrip() {
    for vk in 0u32..=255 {
        if let Some(code) = vk_to_evdev(vk) {
            assert_eq!(
                evdev_to_vk(code),
                Some(vk),
                "VK {vk} -> evdev {code} did not round-trip back to {vk}"
            );
        }
    }
}

#[test]
fn left_modifiers_map_to_app_vk_codes() {
    assert_eq!(evdev_to_vk(29), Some(162)); // left ctrl
    assert_eq!(evdev_to_vk(42), Some(160)); // left shift
    assert_eq!(evdev_to_vk(56), Some(164)); // left alt
    assert_eq!(evdev_to_vk(125), Some(91)); // left meta (win)
}

#[test]
fn keys_without_a_code_are_unmapped() {
    assert_eq!(vk_to_keysym(7), None);
    assert_eq!(vk_to_evdev(7), None);
    assert_eq!(evdev_to_vk(0x2ff), None);
    assert_eq!(vk_to_keysym(u32::MAX), None);
}

#[test]
fn letters_and_digits_have_plain_keysyms() {
    for vk in b'0'..=b'9' {
        assert_eq!(vk_to_keysym(u32::from(vk)), Some(u32::from(vk)));
    }
    for vk in b'A'..=b'Z' {
        assert_eq!(vk_to_keysym(u32::from(vk)), Some(u32::from(vk.to_ascii_lowercase())));
    }
    assert_eq!(vk_to_evdev(u32::from(b'V')), Some(47));
}

#[test]
fn codes_are_distinct_and_have_keysyms() {
    let mut seen = std::collections::HashSet::new();
    for vk in 0..=255 {
        if let Some(code) = vk_to_evdev(vk) {
            assert!(seen.insert(code));
            assert!(vk_to_keysym(vk).is_some());
        }
    }
    for code in 0..=0x2ff {
        if let Some(vk) = evdev_to_vk(code) {
            assert_eq!(vk_to_evdev(vk), Some(code));
        }
    }
}

#[test]
fn flags_name_left_modifiers() {
    assert_eq!((flag_to_keysym("Shift"), flag_to_evdev("Shift")), (Some(0xffe1), Some(42)));
    assert_eq!((flag_to_keysym("Control"), flag_to_evdev("Control")), (Some(0xffe3), Some(29)));
    assert_eq!((flag_to_keysym("Alt"), flag_to_evdev("Alt")), (Some(0xffe9), Some(56)));
    for flag in ["Command", "Meta", "Super"] {
        assert_eq!((flag_to_keysym(flag), flag_to_evdev(flag)), (Some(0xffeb), Some(125)));
    }
    assert_eq!((flag_to_keysym("shift"), flag_to_evdev("")), (None, None));
    let flags = vec!["Alt".to_string(), "Fn".to_string(), "Shift".to_string()];
    assert_eq!(flags_to_keysyms(&flags), vec![0xffe9, 0xffe1]);
    assert_eq!(flags_to_evdev(&flags), vec![56, 42]);
}
