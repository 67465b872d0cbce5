use wispr_flow_linux_helper::backend::device::{
    chord, device_description, first_setup_step, held_modifiers, ioctl_error, next_setup_step,
    setup_requests, SetupOutcome, SetupRequest, SetupStep, SETUP_REQUESTS,
    DESCRIPTION_SIZE, SETTLE_MS, UI_DEV_CREATE, UI_DEV_DESTROY,
};
use wispr_flow_linux_helper::backend::uinput::EventWriter;
use wispr_flow_linux_helper::capture::is_own_injection_device;
use wispr_flow_linux_helper::event::{native_layout, ByteOrder, BITMAP_LEN};

#[test]
fn every_key_is_declared() {
    let requests = setup_requests();
    let first = SetupRequest { request: 0x4004_5564, arg: 1, must_succeed: true };
    assert_eq!(requests[0], first);
    assert_eq!(requests[1], SetupRequest { arg: 0, ..first });
    assert_eq!(requests.len(), 2 + 0x2ff);
    for (i, request) in requests[2..].iter().enumerate() {
        assert_eq!(request.request, 0x4004_5565);
        assert_eq!(usize::from(request.arg), i + 1);
        assert!(!request.must_succeed);
    }
    assert_eq!((UI_DEV_CREATE, UI_DEV_DESTROY, SETTLE_MS), (0x5501, 0x5502, 200));
}

#[test]
fn description_has_the_kernel_layout() {
    let bytes = device_description(native_layout().order);
    assert_eq!(bytes.len(), DESCRIPTION_SIZE);
    assert_eq!(DESCRIPTION_SIZE, std::mem::size_of::<libc::uinput_user_dev>());
    assert_eq!(&bytes[..23], b"Wispr Flow Linux Helper");
    assert!(bytes[23..80].iter().all(|b| *b == 0));
    let id: Vec<u8> = [3u16, 0x1234, 0x5678, 1].iter().flat_map(|n| n.to_ne_bytes()).collect();
    assert_eq!(bytes[80..88], id);
    assert!(bytes[88..].iter().all(|b| *b == 0));
    assert!(is_own_injection_device(Some(&bytes[..80])));
}

#[test]
fn description_follows_the_byte_order() {
    let low = device_description(ByteOrder::LowFirst);
    let high = device_description(ByteOrder::HighFirst);
    assert_eq!(low[80..88], [3, 0, 0x34, 0x12, 0x78, 0x56, 1, 0]);
    assert_eq!(high[80..88], [0, 3, 0x12, 0x34, 0x56, 0x78, 0, 1]);
    assert_eq!((&low[..80], &low[88..]), (&high[..80], &high[88..]));
}

#[test]
fn failed_requests_are_named() {
    assert_eq!(
        ioctl_error(0x4004_5564, 1, "Operation not permitted"),
        "ioctl 0x40045564(1): Operation not permitted"
    );
}

#[test]
fn held_modifiers_are_sorted_and_distinct() {
    let mut first = vec![0u8; BITMAP_LEN];
    first[125 / 8] |= 1 << (125 % 8);
    first[30 / 8] |= 1 << (30 % 8);
    let mut second = first.clone();
    second[29 / 8] |= 1 << (29 % 8);
    assert_eq!(held_modifiers(&vec![first, second]), vec![29, 125]);
    assert_eq!(held_modifiers(&Vec::new()), Vec::<u16>::new());
    assert_eq!(
        held_modifiers(&vec![vec![0xff; BITMAP_LEN]]),
        vec![29, 42, 54, 56, 97, 100, 125, 126]
    );
}

struct KeyLog(Vec<(u16, i32)>);

impl EventWriter for KeyLog {
    fn write_event(&mut self, type_: u16, code: u16, value: i32) -> Result<(), String> {
        if type_ == 1 {
            self.0.push((code, value));
        }
        Ok(())
    }
}

#[test]
fn chord_releases_what_the_user_holds() {
    let mut down = vec![0u8; BITMAP_LEN];
    down[125 / 8] |= 1 << (125 % 8);
    let mut log = KeyLog(Vec::new());
    chord(&mut log, 47, &[29], &vec![down]).unwrap();
    assert_eq!(log.0, vec![(125, 0), (29, 1), (47, 1), (47, 0), (29, 0)]);
    let mut log = KeyLog(Vec::new());
    chord(&mut log, 47, &[29], &Vec::new()).unwrap();
    assert_eq!(log.0, vec![(29, 1), (47, 1), (47, 0), (29, 0)]);
}

/// Sets up with the places in the order of the steps that are refused.
fn set_up(refused: &[usize]) -> Result<(), String> {
    let mut step = first_setup_step();
    for place in 0..SETUP_REQUESTS + 4 {
        let outcome = if refused.contains(&place) {
            SetupOutcome::Refused("no".to_string())
        } else {
            SetupOutcome::Taken
        };
        step = next_setup_step(step, outcome);
    }
    match step {
        SetupStep::Done(result) => result,
        other => panic!("{other:?}"),
    }
}

#[test]
fn setup_fails_with_what_must_succeed() {
    assert_eq!(set_up(&[]), Ok(()));
    let all_keys: Vec<usize> = (3..=SETUP_REQUESTS).collect();
    assert_eq!(set_up(&all_keys), Ok(()));
    let error = |place| set_up(&[place]).unwrap_err();
    assert_eq!(
        error(0),
        "open /dev/uinput: no (need write access — logind uaccess ACL, `uinput` group, or root)"
    );
    assert_eq!(error(1), "ioctl 0x40045564(1): no");
    assert_eq!(error(2), "ioctl 0x40045564(0): no");
    assert_eq!(error(SETUP_REQUESTS + 1), "write uinput_user_dev: no");
    assert_eq!(error(SETUP_REQUESTS + 2), "UI_DEV_CREATE: no");
    assert_eq!(set_up(&[2, 1]).unwrap_err(), "ioctl 0x40045564(1): no");
}

#[test]
fn setup_goes_step_by_step() {
    let step = next_setup_step(first_setup_step(), SetupOutcome::Taken);
    assert!(matches!(step, SetupStep::Request { at: 0 }));
    let last = SetupStep::Request { at: SETUP_REQUESTS - 1 };
    let step = next_setup_step(last, SetupOutcome::Refused("gap".to_string()));
    assert!(matches!(step, SetupStep::Describe));
    let step = next_setup_step(step, SetupOutcome::Taken);
    assert!(matches!(step, SetupStep::Create));
    let step = next_setup_step(step, SetupOutcome::Taken);
    assert!(matches!(step, SetupStep::Settle));
    let step = next_setup_step(step, SetupOutcome::Taken);
    assert!(matches!(step, SetupStep::Done(Ok(()))));
}
