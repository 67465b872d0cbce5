use std::collections::BTreeSet;

use wispr_flow_linux_helper::backend::uinput::{write_chord, write_key, EventWriter};
use wispr_flow_linux_helper::event::EV_KEY;

const KEY_LEFTCTRL: u16 = 29;
const KEY_V: u16 = 47;
const KEY_LEFTMETA: u16 = 125;

#[derive(Default)]
struct RecordingWriter {
    event_index: usize,
    fail_once_at: Option<usize>,
    pressed: BTreeSet<u16>,
}

impl EventWriter for RecordingWriter {
    fn write_event(&mut self, type_: u16, code: u16, value: i32) -> Result<(), String> {
        let current_index = self.event_index;
        self.event_index += 1;
        if self.fail_once_at == Some(current_index) {
            self.fail_once_at = None;
            return Err("injected event write failure".into());
        }
        if type_ == EV_KEY {
            if value == 1 {
                self.pressed.insert(code);
            } else if value == 0 {
                self.pressed.remove(&code);
            }
        }
        Ok(())
    }
}

#[derive(Default)]
struct LoggingWriter {
    log: Vec<(u16, u16, i32)>,
    fail_at: Vec<usize>,
}

impl EventWriter for LoggingWriter {
    fn write_event(&mut self, type_: u16, code: u16, value: i32) -> Result<(), String> {
        let at = self.log.len();
        self.log.push((type_, code, value));
        if self.fail_at.contains(&at) {
            return Err(format!("failed at {at}"));
        }
        Ok(())
    }
}

#[test]
fn physically_held_modifier_is_not_left_pressed_on_virtual_device() {
    let mut writer = RecordingWriter::default();

    write_chord(&mut writer, KEY_V, &[KEY_LEFTCTRL], &[KEY_LEFTMETA]).unwrap();

    assert_eq!(writer.pressed, BTreeSet::new());
}

#[test]
fn write_failure_releases_synthetic_modifiers() {
    let mut writer = RecordingWriter {
        fail_once_at: Some(2),
        ..RecordingWriter::default()
    };

    assert!(write_chord(&mut writer, KEY_V, &[KEY_LEFTCTRL], &[]).is_err());

    assert_eq!(writer.pressed, BTreeSet::new());
}

#[test]
fn key_events_are_reported() {
    let mut writer = LoggingWriter::default();
    write_key(&mut writer, 30, true).unwrap();
    write_key(&mut writer, 30, false).unwrap();
    assert_eq!(writer.log, vec![(1, 30, 1), (0, 0, 0), (1, 30, 0), (0, 0, 0)]);
    let mut writer = LoggingWriter { fail_at: vec![0], ..LoggingWriter::default() };
    assert_eq!(write_key(&mut writer, 30, true), Err("failed at 0".to_string()));
    assert_eq!(writer.log.len(), 1);
}

#[test]
fn undisturbed_chord_is_written_in_order() {
    let mut writer = LoggingWriter::default();
    write_chord(&mut writer, KEY_V, &[KEY_LEFTCTRL, 42], &[KEY_LEFTMETA]).unwrap();
    let keys: Vec<(u16, i32)> =
        writer.log.iter().filter(|e| e.0 == EV_KEY).map(|e| (e.1, e.2)).collect();
    assert_eq!(
        keys,
        vec![
            (KEY_LEFTMETA, 0),
            (KEY_LEFTCTRL, 1),
            (42, 1),
            (KEY_V, 1),
            (KEY_V, 0),
            (42, 0),
            (KEY_LEFTCTRL, 0)
        ]
    );
    assert_eq!(writer.log.len(), 14);
}

#[test]
fn first_error_is_reported_and_everything_released() {
    let mut writer = LoggingWriter { fail_at: vec![2, 5], ..LoggingWriter::default() };
    let result = write_chord(&mut writer, KEY_V, &[KEY_LEFTCTRL], &[]);
    assert_eq!(result, Err("failed at 2".to_string()));
    assert_eq!(
        writer.log,
        vec![(1, 29, 1), (0, 0, 0), (1, 47, 1), (1, 47, 0), (0, 0, 0), (1, 29, 0)]
    );
}

#[test]
fn errors_in_releasing_held_keys_are_passed_over() {
    let mut writer = LoggingWriter { fail_at: vec![0], ..LoggingWriter::default() };
    assert_eq!(write_chord(&mut writer, KEY_V, &[], &[KEY_LEFTMETA]), Ok(()));
    assert_eq!(writer.log.len(), 5);
}

#[test]
fn failed_modifier_keeps_the_key_up() {
    let mut writer = LoggingWriter { fail_at: vec![2], ..LoggingWriter::default() };
    let result = write_chord(&mut writer, KEY_V, &[KEY_LEFTCTRL, 42], &[]);
    assert_eq!(result, Err("failed at 2".to_string()));
    assert_eq!(
        writer.log,
        vec![(1, 29, 1), (0, 0, 0), (1, 42, 1), (1, 42, 0), (0, 0, 0), (1, 29, 0), (0, 0, 0)]
    );
}
