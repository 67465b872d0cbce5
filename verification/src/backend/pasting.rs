//! The order of a paste: the clipboard is set first, and the chord is pressed once
//! it was. Setting the clipboard from this process comes before a program.
use crate::backend;
use crate::backend::tool;
use crate::backend::tool::Tool;
use crate::backend::{wayland, x11};
use vstd::prelude::*;

verus! {

/// What to do next to set the clipboard.
#[derive(Debug)]
pub enum ClipboardStep {
    /// Offer the text from this process.
    Offer,
    /// Run a program with the plain text as its input.
    RunTool(Tool),
    /// Nothing is left to do.
    Done(Result<(), String>),
}

/// What a `ClipboardStep` says.
pub enum ClipboardStepView {
    Offer,
    RunTool { program: Seq<char>, args: Seq<Seq<char>> },
    Done(Result<(), Seq<char>>),
}

impl View for ClipboardStep {
    type V = ClipboardStepView;

    open spec fn view(&self) -> ClipboardStepView {
        match *self {
            ClipboardStep::Offer => ClipboardStepView::Offer,
            ClipboardStep::RunTool(t) => ClipboardStepView::RunTool {
                program: tool::tool_view(t).0,
                args: tool::tool_view(t).1,
            },
            ClipboardStep::Done(r) => ClipboardStepView::Done(backend::unit_view(r)),
        }
    }
}

/// The step for a choice of a program: run it, or end with the error text.
pub open spec fn tool_step(choice: Result<(Seq<char>, Seq<Seq<char>>), Seq<char>>) -> ClipboardStepView {
    match choice {
        Ok((program, args)) => ClipboardStepView::RunTool { program, args },
        Err(e) => ClipboardStepView::Done(Err(e)),
    }
}

/// The step for a choice of a program.
fn run_or_fail(choice: Result<Tool, String>) -> (r: ClipboardStep)
    ensures
        r@ == tool_step(tool::tool_result(choice)),
{
    match choice {
        Ok(t) => ClipboardStep::RunTool(t),
        Err(e) => ClipboardStep::Done(Err(e)),
    }
}

/// The first step on X11, where only programs set the clipboard.
pub fn first_x11_step(has_xclip: bool, has_xsel: bool) -> (r: ClipboardStep)
    ensures
        r@ == tool_step(x11::clipboard_writer(has_xclip, has_xsel)),
{
    run_or_fail(x11::clipboard_set(has_xclip, has_xsel))
}

/// The first step on Wayland.
pub fn first_wayland_step() -> (r: ClipboardStep)
    ensures
        r@ == ClipboardStepView::Offer,
{
    ClipboardStep::Offer
}

/// The step after a step and what came of it. A refused offer leaves a program,
/// where there is one.
pub open spec fn clipboard_after(
    step: ClipboardStepView,
    outcome: Result<(), Seq<char>>,
    has_wl_copy: bool,
) -> ClipboardStepView {
    match step {
        ClipboardStepView::Offer => match outcome {
            Ok(_) => ClipboardStepView::Done(outcome),
            Err(cause) => tool_step(wayland::fallback_writer(has_wl_copy, cause)),
        },
        ClipboardStepView::RunTool { .. } => ClipboardStepView::Done(outcome),
        ClipboardStepView::Done(_) => step,
    }
}

/// The step after a step and what came of it.
pub fn next_clipboard_step(
    step: ClipboardStep,
    outcome: Result<(), String>,
    has_wl_copy: bool,
) -> (r: ClipboardStep)
    ensures
        r@ == clipboard_after(step@, backend::unit_view(outcome), has_wl_copy),
{
    match step {
        ClipboardStep::Offer => match outcome {
            Ok(_) => ClipboardStep::Done(outcome),
            Err(cause) => run_or_fail(wayland::clipboard_fallback(has_wl_copy, cause.as_str())),
        },
        ClipboardStep::RunTool(_) => ClipboardStep::Done(outcome),
        ClipboardStep::Done(r) => ClipboardStep::Done(r),
    }
}

/// What to do next to paste.
#[derive(Debug)]
pub enum PasteStep {
    /// Set the clipboard.
    SetClipboard,
    /// Wait until the clipboard is known to have changed.
    Settle,
    /// Press the paste chord.
    PressChord,
    /// Nothing is left to do.
    Done(Result<(), String>),
}

/// What a `PasteStep` says.
pub enum PasteStepView {
    SetClipboard,
    Settle,
    PressChord,
    Done(Result<(), Seq<char>>),
}

impl View for PasteStep {
    type V = PasteStepView;

    open spec fn view(&self) -> PasteStepView {
        match *self {
            PasteStep::SetClipboard => PasteStepView::SetClipboard,
            PasteStep::Settle => PasteStepView::Settle,
            PasteStep::PressChord => PasteStepView::PressChord,
            PasteStep::Done(r) => PasteStepView::Done(backend::unit_view(r)),
        }
    }
}

/// The step after a step and what came of it.
pub open spec fn paste_after(step: PasteStepView, outcome: Result<(), Seq<char>>) -> PasteStepView {
    match step {
        PasteStepView::SetClipboard => if outcome is Ok {
            PasteStepView::Settle
        } else {
            PasteStepView::Done(outcome)
        },
        PasteStepView::Settle => PasteStepView::PressChord,
        PasteStepView::PressChord => PasteStepView::Done(outcome),
        PasteStepView::Done(_) => step,
    }
}

/// The first step.
pub fn first_paste_step() -> (r: PasteStep)
    ensures
        r@ == PasteStepView::SetClipboard,
{
    PasteStep::SetClipboard
}

/// The step after a step and what came of it.
pub fn next_paste_step(step: PasteStep, outcome: Result<(), String>) -> (r: PasteStep)
    ensures
        r@ == paste_after(step@, backend::unit_view(outcome)),
{
    match step {
        PasteStep::SetClipboard => match outcome {
            Ok(_) => PasteStep::Settle,
            Err(e) => PasteStep::Done(Err(e)),
        },
        PasteStep::Settle => PasteStep::PressChord,
        PasteStep::PressChord => PasteStep::Done(outcome),
        PasteStep::Done(r) => PasteStep::Done(r),
    }
}

/// The step after the outcomes, from the first step on.
pub open spec fn paste_run(outcomes: Seq<Result<(), Seq<char>>>) -> PasteStepView
    decreases outcomes.len(),
{
    if outcomes.len() == 0 {
        PasteStepView::SetClipboard
    } else {
        paste_after(paste_run(outcomes.drop_last()), outcomes.last())
    }
}

/// What a paste comes to, by what came of setting the clipboard and of pressing
/// the chord.
pub open spec fn paste_result(
    set: Result<(), Seq<char>>,
    pressed: Result<(), Seq<char>>,
) -> Result<(), Seq<char>> {
    if set is Ok {
        pressed
    } else {
        set
    }
}

/// The chord is pressed only after the clipboard was set. A clipboard that could
/// not be set ends the paste with its error; else the paste ends as the chord does.
pub proof fn law_clipboard_comes_before_the_chord(outcomes: Seq<Result<(), Seq<char>>>)
    ensures
        paste_run(outcomes) is PressChord ==> outcomes.len() == 2 && outcomes[0] is Ok,
        paste_run(outcomes) is Settle ==> outcomes.len() == 1 && outcomes[0] is Ok,
        paste_run(outcomes) is SetClipboard ==> outcomes.len() == 0,
        outcomes.len() > 0 && outcomes[0] is Err ==> paste_run(outcomes) == PasteStepView::Done(
            outcomes[0],
        ),
        outcomes.len() >= 3 ==> paste_run(outcomes) == PasteStepView::Done(
            paste_result(outcomes[0], outcomes[2]),
        ),
    decreases outcomes.len(),
{
    if outcomes.len() > 0 {
        let fewer = outcomes.drop_last();
        law_clipboard_comes_before_the_chord(fewer);
        if fewer.len() > 0 {
            assert(fewer[0] == outcomes[0]);
        }
        if fewer.len() >= 3 {
            assert(fewer[2] == outcomes[2]);
        }
        if fewer.len() == 1 {
            reveal_with_fuel(paste_run, 2);
        }
        if fewer.len() == 2 {
            reveal_with_fuel(paste_run, 3);
            assert(fewer.drop_last().drop_last() =~= Seq::empty());
            assert(fewer.drop_last().last() == outcomes[0]);
        }
    }
}

/// On Wayland a program sets the clipboard only where the offer was refused, and
/// an offer that was taken ends the setting. Refused without a program to fall
/// back to, the setting fails, and the error names the cause.
pub proof fn law_offer_comes_before_the_tool(
    offered: Result<(), Seq<char>>,
    ran: Result<(), Seq<char>>,
    has_wl_copy: bool,
)
    ensures
        ({
            let second = clipboard_after(ClipboardStepView::Offer, offered, has_wl_copy);
            &&& second is RunTool <==> offered is Err && has_wl_copy
            &&& offered is Ok ==> second == ClipboardStepView::Done(offered)
            &&& offered is Err && !has_wl_copy ==> second == ClipboardStepView::Done(
                Err(
                    "clipboard set failed ("@ + offered->Err_0 + ") and no wl-copy fallback"@,
                ),
            )
            &&& second is RunTool ==> second->program == "wl-copy"@ && clipboard_after(
                second,
                ran,
                has_wl_copy,
            ) == ClipboardStepView::Done(ran)
        }),
{
}

/// On X11 the clipboard is set by a program, if there is one, and ends as it does.
pub proof fn law_x11_clipboard_takes_a_tool(
    has_xclip: bool,
    has_xsel: bool,
    ran: Result<(), Seq<char>>,
    has_wl_copy: bool,
)
    ensures
        ({
            let first = tool_step(x11::clipboard_writer(has_xclip, has_xsel));
            &&& first !is Offer
            &&& first is RunTool <==> has_xclip || has_xsel
            &&& first is RunTool ==> clipboard_after(first, ran, has_wl_copy)
                == ClipboardStepView::Done(ran)
        }),
{
}

/// Each step of a paste leads to the next, and what fails ends it with its error.
pub proof fn law_paste_steps(e: Seq<char>, outcome: Result<(), Seq<char>>, done: Result<
    (),
    Seq<char>,
>)
    ensures
        paste_after(PasteStepView::SetClipboard, Ok(())) == PasteStepView::Settle,
        paste_after(PasteStepView::SetClipboard, Err(e)) == PasteStepView::Done(Err(e)),
        paste_after(PasteStepView::Settle, outcome) == PasteStepView::PressChord,
        paste_after(PasteStepView::PressChord, Ok(())) == PasteStepView::Done(Ok(())),
        paste_after(PasteStepView::PressChord, Err(e)) == PasteStepView::Done(Err(e)),
        paste_after(PasteStepView::Done(done), outcome) == PasteStepView::Done(done),
        paste_result(Ok(()), outcome) == outcome,
        paste_result(Err(e), outcome) == Err::<(), Seq<char>>(e),
{
}

/// Each step of setting the clipboard leads to the next. A refused offer is followed
/// by the program for plain text where there is one; a program's end is the end.
pub proof fn law_clipboard_steps(
    cause: Seq<char>,
    outcome: Result<(), Seq<char>>,
    program: Seq<char>,
    args: Seq<Seq<char>>,
    has_wl_copy: bool,
)
    ensures
        clipboard_after(ClipboardStepView::Offer, Ok(()), has_wl_copy) == ClipboardStepView::Done(
            Ok(()),
        ),
        clipboard_after(ClipboardStepView::Offer, Err(cause), true) == (ClipboardStepView::RunTool {
            program: "wl-copy"@,
            args: seq!["--type"@, "text/plain;charset=utf-8"@],
        }),
        clipboard_after(ClipboardStepView::Offer, Err(cause), false) == ClipboardStepView::Done(
            Err("clipboard set failed ("@ + cause + ") and no wl-copy fallback"@),
        ),
        clipboard_after(ClipboardStepView::RunTool { program, args }, outcome, has_wl_copy)
            == ClipboardStepView::Done(outcome),
        clipboard_after(ClipboardStepView::Done(Err(cause)), outcome, has_wl_copy)
            == ClipboardStepView::Done(Err(cause)),
        tool_step(Ok((program, args))) == (ClipboardStepView::RunTool { program, args }),
        tool_step(Err(cause)) == ClipboardStepView::Done(Err(cause)),
{
}

/// The views of the steps hold the programs and errors of the steps.
pub proof fn law_paste_views(t: Tool, e: String)
    ensures
        ClipboardStep::Offer@ == ClipboardStepView::Offer,
        ClipboardStep::RunTool(t)@ == (ClipboardStepView::RunTool {
            program: t.program@,
            args: tool::tool_view(t).1,
        }),
        ClipboardStep::Done(Ok(()))@ == ClipboardStepView::Done(Ok(())),
        ClipboardStep::Done(Err(e))@ == ClipboardStepView::Done(Err(e@)),
        PasteStep::SetClipboard@ == PasteStepView::SetClipboard,
        PasteStep::Settle@ == PasteStepView::Settle,
        PasteStep::PressChord@ == PasteStepView::PressChord,
        PasteStep::Done(Ok(()))@ == PasteStepView::Done(Ok(())),
        PasteStep::Done(Err(e))@ == PasteStepView::Done(Err(e@)),
{
}

} // verus!
