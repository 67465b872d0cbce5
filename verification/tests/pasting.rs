use wispr_flow_linux_helper::backend::pasting::{
    first_paste_step, first_wayland_step, first_x11_step, next_clipboard_step, next_paste_step,
    ClipboardStep, PasteStep,
};

fn refused(cause: &str) -> Result<(), String> {
    Err(cause.to_string())
}

#[test]
fn chord_is_pressed_once_the_clipboard_is_set() {
    let step = first_paste_step();
    assert!(matches!(step, PasteStep::SetClipboard));
    let step = next_paste_step(step, Ok(()));
    assert!(matches!(step, PasteStep::Settle));
    let step = next_paste_step(step, Ok(()));
    assert!(matches!(step, PasteStep::PressChord));
    let step = next_paste_step(step, Ok(()));
    assert!(matches!(step, PasteStep::Done(Ok(()))));
    assert!(matches!(next_paste_step(step, refused("late")), PasteStep::Done(Ok(()))));
}

#[test]
fn failed_clipboard_ends_the_paste() {
    match next_paste_step(first_paste_step(), refused("no tool")) {
        PasteStep::Done(Err(e)) => assert_eq!(e, "no tool"),
        other => panic!("{other:?}"),
    }
}

#[test]
fn failed_chord_is_the_error_of_the_paste() {
    match next_paste_step(PasteStep::PressChord, refused("no key")) {
        PasteStep::Done(Err(e)) => assert_eq!(e, "no key"),
        other => panic!("{other:?}"),
    }
}

#[test]
fn taken_offer_needs_no_tool() {
    let step = next_clipboard_step(first_wayland_step(), Ok(()), true);
    assert!(matches!(step, ClipboardStep::Done(Ok(()))));
}

#[test]
fn refused_offer_leaves_the_tool() {
    let step = next_clipboard_step(first_wayland_step(), refused("x"), true);
    match &step {
        ClipboardStep::RunTool(tool) => assert_eq!(tool.program, "wl-copy"),
        other => panic!("{other:?}"),
    }
    match next_clipboard_step(step, refused("wl-copy exited with exit status: 1"), true) {
        ClipboardStep::Done(Err(e)) => assert_eq!(e, "wl-copy exited with exit status: 1"),
        other => panic!("{other:?}"),
    }
    match next_clipboard_step(first_wayland_step(), refused("x"), false) {
        ClipboardStep::Done(Err(e)) => {
            assert_eq!(e, "clipboard set failed (x) and no wl-copy fallback")
        }
        other => panic!("{other:?}"),
    }
}

#[test]
fn x11_clipboard_is_set_by_a_tool() {
    let step = first_x11_step(false, true);
    match &step {
        ClipboardStep::RunTool(tool) => assert_eq!(tool.program, "xsel"),
        other => panic!("{other:?}"),
    }
    assert!(matches!(next_clipboard_step(step, Ok(()), false), ClipboardStep::Done(Ok(()))));
    match first_x11_step(false, false) {
        ClipboardStep::Done(Err(e)) => assert_eq!(e, "no clipboard tool (xclip/xsel) available"),
        other => panic!("{other:?}"),
    }
}
