use wispr_flow_linux_helper::backend::selection::{
    first_probe, next_probe, read_or_blank, Outcome, Probe,
};
use wispr_flow_linux_helper::backend::Selection;

fn selection(text: &str) -> Selection {
    Selection {
        selected_text: text.to_string(),
        before_text: "b".to_string(),
        after_text: "a".to_string(),
        contents: "c".to_string(),
    }
}

#[test]
fn accessible_selection_is_the_answer() {
    let probe = next_probe(first_probe(), Outcome::Accessible(Ok(Some(selection("x")))));
    match probe {
        Probe::Done(Ok(s)) => {
            assert_eq!(s.selected_text, "x");
            assert_eq!(s.before_text, "b");
            assert_eq!(s.after_text, "a");
            assert_eq!(s.contents, "c");
        }
        other => panic!("{other:?}"),
    }
}

#[test]
fn copying_restores_the_clipboard() {
    let probe = next_probe(first_probe(), Outcome::Accessible(Err("no bus".to_string())));
    assert!(matches!(probe, Probe::SaveClipboard));
    let probe = next_probe(probe, Outcome::Clipboard(Ok("mine".to_string())));
    let probe = next_probe(probe, Outcome::Pressed(Ok(())));
    assert!(matches!(&probe, Probe::ReadCopy { saved } if saved == "mine"));
    let probe = next_probe(probe, Outcome::Clipboard(Ok("word".to_string())));
    match &probe {
        Probe::Restore { saved, selected } => assert_eq!((saved.as_str(), selected.as_str()), ("mine", "word")),
        other => panic!("{other:?}"),
    }
    let probe = next_probe(probe, Outcome::Restored(Err("refused".to_string())));
    match probe {
        Probe::Done(Ok(s)) => {
            assert_eq!((s.selected_text.as_str(), s.contents.as_str()), ("word", "word"));
            assert_eq!((s.before_text.as_str(), s.after_text.as_str()), ("", ""));
        }
        other => panic!("{other:?}"),
    }
}

#[test]
fn unreadable_clipboard_counts_as_empty() {
    let probe = next_probe(first_probe(), Outcome::Accessible(Ok(None)));
    let probe = next_probe(probe, Outcome::Clipboard(Err("no tool".to_string())));
    let probe = next_probe(probe, Outcome::Pressed(Ok(())));
    let probe = next_probe(probe, Outcome::Clipboard(Err("no tool".to_string())));
    match probe {
        Probe::Restore { saved, selected } => assert_eq!((saved.as_str(), selected.as_str()), ("", "")),
        other => panic!("{other:?}"),
    }
    assert_eq!(read_or_blank(Err("e".to_string())), "");
    assert_eq!(read_or_blank(Ok("t".to_string())), "t");
}

#[test]
fn failed_copy_is_reported() {
    let probe = Probe::PressCopy { saved: "mine".to_string() };
    match next_probe(probe, Outcome::Pressed(Err("no key".to_string()))) {
        Probe::Done(Err(e)) => assert_eq!(e, "no key"),
        other => panic!("{other:?}"),
    }
}

#[test]
fn foreign_outcomes_change_nothing() {
    assert!(matches!(
        next_probe(Probe::SaveClipboard, Outcome::Pressed(Ok(()))),
        Probe::SaveClipboard
    ));
    let done = Probe::Done(Err("e".to_string()));
    assert!(matches!(next_probe(done, Outcome::Restored(Ok(()))), Probe::Done(Err(_))));
}
