//! Reading the selected text: over the accessibility bus where it answers, else
//! by copying, with the clipboard put back afterwards.
use crate::backend;
use crate::backend::{Selection, SelectionView};
use vstd::prelude::*;

verus! {

/// What to do next on the way to the selected text.
#[derive(Debug)]
pub enum Probe {
    /// Ask the accessibility bus for the selection.
    AskAccessibility,
    /// Read the clipboard, to put it back later.
    SaveClipboard,
    /// Press Ctrl+C.
    PressCopy { saved: String },
    /// Wait, and read what was copied.
    ReadCopy { saved: String },
    /// Set the clipboard to what it held before.
    Restore { saved: String, selected: String },
    /// Nothing is left to do.
    Done(Result<Selection, String>),
}

/// What came of a step.
#[derive(Debug)]
pub enum Outcome {
    Accessible(Result<Option<Selection>, String>),
    Clipboard(Result<String, String>),
    Pressed(Result<(), String>),
    Restored(Result<(), String>),
}

/// What a `Probe` says.
pub enum ProbeView {
    AskAccessibility,
    SaveClipboard,
    PressCopy { saved: Seq<char> },
    ReadCopy { saved: Seq<char> },
    Restore { saved: Seq<char>, selected: Seq<char> },
    Done(Result<SelectionView, Seq<char>>),
}

/// What an `Outcome` says.
pub enum OutcomeView {
    Accessible(Result<Option<SelectionView>, Seq<char>>),
    Clipboard(Result<Seq<char>, Seq<char>>),
    Pressed(Result<(), Seq<char>>),
    Restored(Result<(), Seq<char>>),
}

impl View for Probe {
    type V = ProbeView;

    open spec fn view(&self) -> ProbeView {
        match *self {
            Probe::AskAccessibility => ProbeView::AskAccessibility,
            Probe::SaveClipboard => ProbeView::SaveClipboard,
            Probe::PressCopy { saved } => ProbeView::PressCopy { saved: saved@ },
            Probe::ReadCopy { saved } => ProbeView::ReadCopy { saved: saved@ },
            Probe::Restore { saved, selected } => ProbeView::Restore {
                saved: saved@,
                selected: selected@,
            },
            Probe::Done(r) => ProbeView::Done(backend::selection_result(r)),
        }
    }
}

impl View for Outcome {
    type V = OutcomeView;

    open spec fn view(&self) -> OutcomeView {
        match *self {
            Outcome::Accessible(Ok(Some(s))) => OutcomeView::Accessible(Ok(Some(s@))),
            Outcome::Accessible(Ok(None)) => OutcomeView::Accessible(Ok(None)),
            Outcome::Accessible(Err(e)) => OutcomeView::Accessible(Err(e@)),
            Outcome::Clipboard(Ok(s)) => OutcomeView::Clipboard(Ok(s@)),
            Outcome::Clipboard(Err(e)) => OutcomeView::Clipboard(Err(e@)),
            Outcome::Pressed(r) => OutcomeView::Pressed(backend::unit_view(r)),
            Outcome::Restored(r) => OutcomeView::Restored(backend::unit_view(r)),
        }
    }
}

/// The text that was read, or the empty one.
pub open spec fn text_or_blank(r: Result<Seq<char>, Seq<char>>) -> Seq<char> {
    match r {
        Ok(s) => s,
        Err(_) => Seq::empty(),
    }
}

/// The text that was read, or the empty one.
pub fn read_or_blank(r: Result<String, String>) -> (s: String)
    ensures
        s@ == text_or_blank(
            match r {
                Ok(text) => Ok(text@),
                Err(e) => Err(e@),
            },
        ),
{
    match r {
        Ok(text) => text,
        Err(_) => String::new(),
    }
}

/// The selection that a copied text makes.
pub open spec fn copied(text: Seq<char>) -> SelectionView {
    SelectionView {
        selected_text: text,
        before_text: Seq::empty(),
        after_text: Seq::empty(),
        contents: text,
    }
}

/// The step after a step and what came of it. What does not belong to a step
/// leaves it as it is.
pub open spec fn probe_after(probe: ProbeView, outcome: OutcomeView) -> ProbeView {
    match (probe, outcome) {
        (ProbeView::AskAccessibility, OutcomeView::Accessible(Ok(Some(s)))) => ProbeView::Done(
            Ok(s),
        ),
        (ProbeView::AskAccessibility, OutcomeView::Accessible(_)) => ProbeView::SaveClipboard,
        (ProbeView::SaveClipboard, OutcomeView::Clipboard(r)) => ProbeView::PressCopy {
            saved: text_or_blank(r),
        },
        (ProbeView::PressCopy { saved }, OutcomeView::Pressed(Ok(_))) => ProbeView::ReadCopy {
            saved,
        },
        (ProbeView::PressCopy { saved }, OutcomeView::Pressed(Err(e))) => ProbeView::Done(Err(e)),
        (ProbeView::ReadCopy { saved }, OutcomeView::Clipboard(r)) => ProbeView::Restore {
            saved,
            selected: text_or_blank(r),
        },
        (ProbeView::Restore { saved, selected }, OutcomeView::Restored(_)) => ProbeView::Done(
            Ok(copied(selected)),
        ),
        _ => probe,
    }
}

/// The first step.
pub fn first_probe() -> (r: Probe)
    ensures
        r@ == ProbeView::AskAccessibility,
{
    Probe::AskAccessibility
}

/// The step after a step and what came of it.
pub fn next_probe(probe: Probe, outcome: Outcome) -> (r: Probe)
    ensures
        r@ == probe_after(probe@, outcome@),
{
    match (probe, outcome) {
        (Probe::AskAccessibility, Outcome::Accessible(Ok(Some(s)))) => Probe::Done(Ok(s)),
        (Probe::AskAccessibility, Outcome::Accessible(_)) => Probe::SaveClipboard,
        (Probe::SaveClipboard, Outcome::Clipboard(r)) => Probe::PressCopy {
            saved: read_or_blank(r),
        },
        (Probe::PressCopy { saved }, Outcome::Pressed(Ok(_))) => Probe::ReadCopy { saved },
        (Probe::PressCopy { saved: _ }, Outcome::Pressed(Err(e))) => Probe::Done(Err(e)),
        (Probe::ReadCopy { saved }, Outcome::Clipboard(r)) => Probe::Restore {
            saved,
            selected: read_or_blank(r),
        },
        (Probe::Restore { saved: _, selected }, Outcome::Restored(_)) => {
            let contents = selected.clone();
            Probe::Done(
                Ok(
                    Selection {
                        selected_text: selected,
                        before_text: String::new(),
                        after_text: String::new(),
                        contents,
                    },
                ),
            )
        },
        (probe, _) => probe,
    }
}

/// The step after the outcomes, from a step on.
pub open spec fn probe_run(probe: ProbeView, outcomes: Seq<OutcomeView>) -> ProbeView
    decreases outcomes.len(),
{
    if outcomes.len() == 0 {
        probe
    } else {
        probe_after(probe_run(probe, outcomes.drop_last()), outcomes.last())
    }
}

/// A selection that the accessibility bus gives is the answer, and neither the
/// keyboard nor the clipboard is touched.
pub proof fn law_accessible_selection_is_not_copied(selection: SelectionView)
    ensures
        probe_after(ProbeView::AskAccessibility, OutcomeView::Accessible(Ok(Some(selection))))
            == ProbeView::Done(Ok(selection)),
{
}

/// Copying puts back what the clipboard held before, and answers with what it
/// held in between.
pub proof fn law_copy_restores_the_clipboard(
    refusal: OutcomeView,
    before: Result<Seq<char>, Seq<char>>,
    after: Result<Seq<char>, Seq<char>>,
    restored: Result<(), Seq<char>>,
)
    requires
        refusal is Accessible,
        !(refusal->Accessible_0 is Ok && refusal->Accessible_0->Ok_0 is Some),
    ensures
        ({
            let copy = seq![
                refusal,
                OutcomeView::Clipboard(before),
                OutcomeView::Pressed(Ok(())),
                OutcomeView::Clipboard(after),
            ];
            &&& probe_run(ProbeView::AskAccessibility, copy) == ProbeView::Restore {
                saved: text_or_blank(before),
                selected: text_or_blank(after),
            }
            &&& probe_run(
                ProbeView::AskAccessibility,
                copy.push(OutcomeView::Restored(restored)),
            ) == ProbeView::Done(Ok(copied(text_or_blank(after))))
        }),
{
    let copy = seq![
        refusal,
        OutcomeView::Clipboard(before),
        OutcomeView::Pressed(Ok(())),
        OutcomeView::Clipboard(after),
    ];
    reveal_with_fuel(probe_run, 5);
    assert(copy.drop_last() =~= seq![
        refusal,
        OutcomeView::Clipboard(before),
        OutcomeView::Pressed(Ok(())),
    ]);
    assert(copy.drop_last().drop_last() =~= seq![refusal, OutcomeView::Clipboard(before)]);
    assert(copy.drop_last().drop_last().drop_last() =~= seq![refusal]);
    assert(copy.drop_last().drop_last().drop_last().drop_last() =~= Seq::empty());
    assert(copy.push(OutcomeView::Restored(restored)).drop_last() =~= copy);
}

/// The clipboard is written in the last step only, after Ctrl+C was pressed, and
/// a copy that could not be pressed leaves it alone.
pub proof fn law_failed_copy_leaves_the_clipboard(saved: Seq<char>, cause: Seq<char>)
    ensures
        probe_after(ProbeView::PressCopy { saved }, OutcomeView::Pressed(Err(cause)))
            == ProbeView::Done(Err(cause)),
        forall|probe: ProbeView, outcome: OutcomeView|
            (#[trigger] probe_after(probe, outcome)) is Restore && probe !is Restore ==> probe
                is ReadCopy,
        forall|probe: ProbeView, outcome: OutcomeView|
            (#[trigger] probe_after(probe, outcome)) is ReadCopy && probe !is ReadCopy ==> probe
                is PressCopy && outcome is Pressed && outcome->Pressed_0 is Ok,
{
}

/// Once there is an answer, it stays.
pub proof fn law_answer_stays(answer: Result<SelectionView, Seq<char>>, outcome: OutcomeView)
    ensures
        probe_after(ProbeView::Done(answer), outcome) == ProbeView::Done(answer),
{
}

/// A copy that went through gives the text that the clipboard held behind it as the
/// selected text and as the contents, character for character, and nothing around
/// it; the text that is put back is the one that the clipboard held before.
pub proof fn law_copied_text_is_the_selection(
    refusal: OutcomeView,
    before: Seq<char>,
    after: Seq<char>,
    restored: Result<(), Seq<char>>,
)
    requires
        refusal matches OutcomeView::Accessible(r) && (r matches Ok(s) ==> s is None),
    ensures
        ({
            let copy = seq![
                refusal,
                OutcomeView::Clipboard(Ok(before)),
                OutcomeView::Pressed(Ok(())),
                OutcomeView::Clipboard(Ok(after)),
            ];
            let restore = probe_run(ProbeView::AskAccessibility, copy);
            let end = probe_run(
                ProbeView::AskAccessibility,
                copy.push(OutcomeView::Restored(restored)),
            );
            &&& restore matches ProbeView::Restore { saved, selected } && saved == before
                && selected == after
            &&& end matches ProbeView::Done(Ok(s)) && s.selected_text == after && s.contents == after
                && s.before_text.len() == 0 && s.after_text.len() == 0
        }),
{
    law_copy_restores_the_clipboard(refusal, Ok(before), Ok(after), restored);
}

/// Each step and what came of it leads to the next: what is read goes on as it is,
/// and a clipboard that cannot be read counts as empty.
pub proof fn law_probe_steps(
    saved: Seq<char>,
    selected: Seq<char>,
    text: Seq<char>,
    cause: Seq<char>,
    selection: SelectionView,
    restored: Result<(), Seq<char>>,
)
    ensures
        probe_after(ProbeView::AskAccessibility, OutcomeView::Accessible(Ok(Some(selection))))
            == ProbeView::Done(Ok(selection)),
        probe_after(ProbeView::AskAccessibility, OutcomeView::Accessible(Ok(None)))
            == ProbeView::SaveClipboard,
        probe_after(ProbeView::AskAccessibility, OutcomeView::Accessible(Err(cause)))
            == ProbeView::SaveClipboard,
        probe_after(ProbeView::SaveClipboard, OutcomeView::Clipboard(Ok(text))) == (
        ProbeView::PressCopy { saved: text }),
        probe_after(ProbeView::SaveClipboard, OutcomeView::Clipboard(Err(cause))) == (
        ProbeView::PressCopy { saved: Seq::empty() }),
        probe_after(ProbeView::PressCopy { saved }, OutcomeView::Pressed(Ok(()))) == (
        ProbeView::ReadCopy { saved }),
        probe_after(ProbeView::PressCopy { saved }, OutcomeView::Pressed(Err(cause)))
            == ProbeView::Done(Err(cause)),
        probe_after(ProbeView::ReadCopy { saved }, OutcomeView::Clipboard(Ok(text))) == (
        ProbeView::Restore { saved, selected: text }),
        probe_after(ProbeView::ReadCopy { saved }, OutcomeView::Clipboard(Err(cause))) == (
        ProbeView::Restore { saved, selected: Seq::empty() }),
        probe_after(ProbeView::Restore { saved, selected }, OutcomeView::Restored(restored))
            == ProbeView::Done(
            Ok(
                SelectionView {
                    selected_text: selected,
                    before_text: Seq::empty(),
                    after_text: Seq::empty(),
                    contents: selected,
                },
            ),
        ),
        text_or_blank(Ok(text)) == text,
        text_or_blank(Err(cause)) == Seq::<char>::empty(),
{
}

/// A step that does not fit what came of it stays as it is.
pub proof fn law_foreign_outcomes(probe: ProbeView, outcome: OutcomeView)
    ensures
        outcome !is Accessible && probe is AskAccessibility ==> probe_after(probe, outcome) == probe,
        outcome !is Clipboard && (probe is SaveClipboard || probe is ReadCopy) ==> probe_after(
            probe,
            outcome,
        ) == probe,
        outcome !is Pressed && probe is PressCopy ==> probe_after(probe, outcome) == probe,
        outcome !is Restored && probe is Restore ==> probe_after(probe, outcome) == probe,
{
}

/// The views of steps and outcomes hold the texts of the steps and outcomes.
pub proof fn law_probe_views(saved: String, selected: String, s: Selection, e: String)
    ensures
        (Probe::PressCopy { saved })@ == (ProbeView::PressCopy { saved: saved@ }),
        (Probe::ReadCopy { saved })@ == (ProbeView::ReadCopy { saved: saved@ }),
        (Probe::Restore { saved, selected })@ == (ProbeView::Restore {
            saved: saved@,
            selected: selected@,
        }),
        Probe::AskAccessibility@ == ProbeView::AskAccessibility,
        Probe::SaveClipboard@ == ProbeView::SaveClipboard,
        Probe::Done(Ok(s))@ == ProbeView::Done(Ok(s@)),
        Probe::Done(Err(e))@ == ProbeView::Done(Err(e@)),
        Outcome::Accessible(Ok(Some(s)))@ == OutcomeView::Accessible(Ok(Some(s@))),
        Outcome::Accessible(Ok(None))@ == OutcomeView::Accessible(Ok(None)),
        Outcome::Accessible(Err(e))@ == OutcomeView::Accessible(Err(e@)),
        Outcome::Clipboard(Ok(saved))@ == OutcomeView::Clipboard(Ok(saved@)),
        Outcome::Clipboard(Err(e))@ == OutcomeView::Clipboard(Err(e@)),
        Outcome::Pressed(Ok(()))@ == OutcomeView::Pressed(Ok(())),
        Outcome::Pressed(Err(e))@ == OutcomeView::Pressed(Err(e@)),
        Outcome::Restored(Ok(()))@ == OutcomeView::Restored(Ok(())),
        Outcome::Restored(Err(e))@ == OutcomeView::Restored(Err(e@)),
{
}

} // verus!
