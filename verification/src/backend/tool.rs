//! Programs that are run to reach the clipboard, and what comes of running them.
use crate::bytes;
use crate::text;
use vstd::prelude::*;

verus! {

/// How long a program may run, in milliseconds, before it is stopped.
pub const DEADLINE_MS: u64 = 1500;

/// How long to wait, in milliseconds, before looking again whether a program has
/// ended.
pub const POLL_MS: u64 = 20;

/// A program to run and its arguments.
#[derive(Debug)]
pub struct Tool {
    pub program: &'static str,
    pub args: Vec<&'static str>,
}

/// The program and the arguments of a tool.
pub open spec fn tool_view(tool: Tool) -> (Seq<char>, Seq<Seq<char>>) {
    (tool.program@, Seq::new(tool.args@.len(), |i: int| tool.args@[i]@))
}

/// What a choice of a tool says.
pub open spec fn tool_result(r: Result<Tool, String>) -> Result<
    (Seq<char>, Seq<Seq<char>>),
    Seq<char>,
> {
    match r {
        Ok(tool) => Ok(tool_view(tool)),
        Err(e) => Err(e@),
    }
}

/// The text that a program wrote, which may hold more than valid text.
pub fn captured_text(output: &[u8]) -> (r: String)
    ensures
        r@ == bytes::lossy(output@),
        vstd::utf8::valid_utf8(output@) ==> r@ == vstd::utf8::decode_utf8(output@),
{
    bytes::lossy_text(output)
}

/// The text for a program that failed, with how it ended in words.
pub open spec fn exit_error(program: Seq<char>, status: Seq<char>) -> Seq<char> {
    program + " exited with "@ + status
}

/// The text for a program that ran for too long.
pub open spec fn deadline_error(program: Seq<char>) -> Seq<char> {
    program + " timed out after 1.5s"@
}

/// The text for a program that could not be waited for.
pub open spec fn wait_error(program: Seq<char>, cause: Seq<char>) -> Seq<char> {
    "wait "@ + program + ": "@ + cause
}

/// What running a program for its effect comes to.
pub fn exit_result(program: &str, success: bool, status: &str) -> (r: Result<(), String>)
    ensures
        (match r {
            Ok(_) => Ok(()),
            Err(e) => Err(e@),
        }) == (if success {
            Ok(())
        } else {
            Err(exit_error(program@, status@))
        }),
{
    if success {
        Ok(())
    } else {
        let mut e = text::join(program, " exited with ");
        e.append(status);
        Err(e)
    }
}

/// What is seen of a program that is running: it is not done, it has ended, with
/// the words for how it did, or it cannot be waited for.
#[derive(Debug)]
pub enum Seen {
    Running,
    Ended { success: bool, status: String },
    Lost(String),
}

/// What to do about a program that is running: look again later, take what it
/// wrote, give up, or stop it and give up.
#[derive(Debug)]
pub enum WaitStep {
    Poll,
    Collect,
    Fail(String),
    Kill(String),
}

/// What a wait step says.
pub enum WaitStepView {
    Poll,
    Collect,
    Fail(Seq<char>),
    Kill(Seq<char>),
}

impl View for WaitStep {
    type V = WaitStepView;

    open spec fn view(&self) -> WaitStepView {
        match self {
            WaitStep::Poll => WaitStepView::Poll,
            WaitStep::Collect => WaitStepView::Collect,
            WaitStep::Fail(e) => WaitStepView::Fail(e@),
            WaitStep::Kill(e) => WaitStepView::Kill(e@),
        }
    }
}

/// The step after a look at a program that has run for so long.
pub open spec fn wait_step(program: Seq<char>, seen: Seen, elapsed_ms: u64) -> WaitStepView {
    match seen {
        Seen::Ended { success: true, .. } => WaitStepView::Collect,
        Seen::Ended { success: false, status } => WaitStepView::Fail(exit_error(program, status@)),
        Seen::Running => if elapsed_ms >= DEADLINE_MS {
            WaitStepView::Kill(deadline_error(program))
        } else {
            WaitStepView::Poll
        },
        Seen::Lost(cause) => WaitStepView::Fail(wait_error(program, cause@)),
    }
}

/// The step after a look at a program that has run for so long.
pub fn next_wait_step(program: &str, seen: &Seen, elapsed_ms: u64) -> (r: WaitStep)
    ensures
        r@ == wait_step(program@, *seen, elapsed_ms),
{
    match seen {
        Seen::Ended { success, status } => {
            if *success {
                WaitStep::Collect
            } else {
                let mut e = text::join(program, " exited with ");
                e.append(status.as_str());
                WaitStep::Fail(e)
            }
        },
        Seen::Running => {
            if elapsed_ms >= DEADLINE_MS {
                WaitStep::Kill(text::join(program, " timed out after 1.5s"))
            } else {
                WaitStep::Poll
            }
        },
        Seen::Lost(cause) => {
            let mut e = text::join("wait ", program);
            e.append(": ");
            e.append(cause.as_str());
            WaitStep::Fail(e)
        },
    }
}

/// A program is stopped only when it is still running at the deadline, and it is
/// never waited for beyond it.
pub proof fn law_waits_are_bounded(program: Seq<char>, seen: Seen, elapsed_ms: u64)
    ensures
        wait_step(program, seen, elapsed_ms) is Kill <==> seen is Running && elapsed_ms
            >= DEADLINE_MS,
        wait_step(program, seen, elapsed_ms) is Poll <==> seen is Running && elapsed_ms
            < DEADLINE_MS,
{
}

/// What comes of a look at a program, in full: a program that ended well is read,
/// one that ended badly or was lost fails in words, and one that still runs at the
/// deadline is stopped.
pub proof fn law_wait_steps(program: Seq<char>, status: String, cause: String, elapsed_ms: u64)
    ensures
        wait_step(program, Seen::Ended { success: true, status }, elapsed_ms)
            == WaitStepView::Collect,
        wait_step(program, Seen::Ended { success: false, status }, elapsed_ms)
            == WaitStepView::Fail(program + " exited with "@ + status@),
        wait_step(program, Seen::Lost(cause), elapsed_ms) == WaitStepView::Fail(
            "wait "@ + program + ": "@ + cause@,
        ),
        elapsed_ms < 1500 ==> wait_step(program, Seen::Running, elapsed_ms) == WaitStepView::Poll,
        elapsed_ms >= 1500 ==> wait_step(program, Seen::Running, elapsed_ms) == WaitStepView::Kill(
            program + " timed out after 1.5s"@,
        ),
        exit_error(program, status@) == program + " exited with "@ + status@,
{
}

/// What a tool and a step say is what they hold.
pub proof fn law_tool_views(tool: Tool, e: String)
    ensures
        tool_view(tool).0 == tool.program@,
        tool_view(tool).1.len() == tool.args@.len(),
        forall|i: int| 0 <= i < tool.args@.len() ==> #[trigger] tool_view(tool).1[i] == tool.args@[i]@,
        tool_result(Ok(tool)) == Ok::<(Seq<char>, Seq<Seq<char>>), Seq<char>>(tool_view(tool)),
        tool_result(Err(e)) == Err::<(Seq<char>, Seq<Seq<char>>), Seq<char>>(e@),
        WaitStep::Poll@ == WaitStepView::Poll,
        WaitStep::Collect@ == WaitStepView::Collect,
        WaitStep::Fail(e)@ == WaitStepView::Fail(e@),
        WaitStep::Kill(e)@ == WaitStepView::Kill(e@),
{
}

} // verus!
