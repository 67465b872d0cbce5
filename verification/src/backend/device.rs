//! Setting up the virtual keyboard device, and the modifiers that the user holds
//! down on real ones.
use crate::backend;
use crate::backend::uinput;
use crate::backend::uinput::{EventWrite, EventWriter, KeyOutcome};
use crate::bytes;
use crate::capture;
use crate::capture::{NAME_LEN, OWN_INJECTION_NAME};
use crate::event;
use crate::event::{ByteOrder, EV_KEY, EV_SYN, KEY_MAX};
use crate::keymap::EVDEV_MODIFIERS;
use crate::text;
use vstd::prelude::*;
use vstd::string::StringSliceAdditionalSpecFns;

verus! {

/// The request that creates the device.
pub const UI_DEV_CREATE: u64 = 0x5501;

/// The request that destroys the device.
pub const UI_DEV_DESTROY: u64 = 0x5502;

/// The request that declares an event type.
pub const UI_SET_EVBIT: u64 = 0x40045564;

/// The request that declares a key.
pub const UI_SET_KEYBIT: u64 = 0x40045565;

/// The bus number of USB.
pub const BUS_USB: u16 = 0x03;

/// The vendor, product and version that the device shows.
pub const VENDOR: u16 = 0x1234;

pub const PRODUCT: u16 = 0x5678;

pub const VERSION: u16 = 1;

/// The bytes of a device description.
pub const DESCRIPTION_SIZE: usize = 1116;

/// How long to wait, in milliseconds, until the new device is looked at.
pub const SETTLE_MS: u64 = 200;

/// A request to make before the device is created.
#[derive(Debug, Clone, Copy, PartialEq, Eq)]
pub struct SetupRequest {
    pub request: u64,
    pub arg: u16,
    /// Whether setting up fails if the request does.
    pub must_succeed: bool,
}

/// The requests that declare what the device emits: key events and reports, and
/// every key. A few key codes are gaps, which the kernel refuses.
pub open spec fn setup_plan() -> Seq<SetupRequest> {
    seq![
        SetupRequest { request: UI_SET_EVBIT, arg: EV_KEY, must_succeed: true },
        SetupRequest { request: UI_SET_EVBIT, arg: EV_SYN, must_succeed: true },
    ] + Seq::new(
        KEY_MAX as nat,
        |i: int| SetupRequest { request: UI_SET_KEYBIT, arg: (i + 1) as u16, must_succeed: false },
    )
}

/// The number of the requests.
pub const SETUP_REQUESTS: usize = 769;

/// The request at a place.
fn request_at(at: usize) -> (r: SetupRequest)
    requires
        at < SETUP_REQUESTS,
    ensures
        r == setup_plan()[at as int],
{
    if at == 0 {
        SetupRequest { request: UI_SET_EVBIT, arg: EV_KEY, must_succeed: true }
    } else if at == 1 {
        SetupRequest { request: UI_SET_EVBIT, arg: EV_SYN, must_succeed: true }
    } else {
        SetupRequest { request: UI_SET_KEYBIT, arg: (at - 1) as u16, must_succeed: false }
    }
}

/// The requests to make, in order, before the device is created.
pub fn setup_requests() -> (r: Vec<SetupRequest>)
    ensures
        r@ == setup_plan(),
        r@.len() == SETUP_REQUESTS,
{
    let mut out: Vec<SetupRequest> = Vec::new();
    let mut at: usize = 0;
    while at < SETUP_REQUESTS
        invariant
            at <= SETUP_REQUESTS,
            out@ == setup_plan().take(at as int),
        decreases SETUP_REQUESTS - at,
    {
        out.push(request_at(at));
        at = at + 1;
        proof {
            assert(out@ =~= setup_plan().take(at as int));
        }
    }
    proof {
        assert(setup_plan().take(at as int) =~= setup_plan());
    }
    out
}

/// What to do next on the way to the virtual keyboard.
#[derive(Debug)]
pub enum SetupStep {
    /// Open the device file.
    Open,
    /// Make the request at a place of the setup requests.
    Request { at: usize },
    /// Write the description.
    Describe,
    /// Create the device.
    Create,
    /// Wait until the new device is looked at.
    Settle,
    /// Nothing is left to do.
    Done(Result<(), String>),
}

/// What came of a step: it was done, or refused for a cause.
#[derive(Debug)]
pub enum SetupOutcome {
    Taken,
    Refused(String),
}

/// What a `SetupStep` says.
pub enum SetupStepView {
    Open,
    Request { at: int },
    Describe,
    Create,
    Settle,
    Done(Result<(), Seq<char>>),
}

/// What a `SetupOutcome` says.
pub enum SetupOutcomeView {
    Taken,
    Refused(Seq<char>),
}

impl View for SetupStep {
    type V = SetupStepView;

    open spec fn view(&self) -> SetupStepView {
        match *self {
            SetupStep::Open => SetupStepView::Open,
            SetupStep::Request { at } => SetupStepView::Request { at: at as int },
            SetupStep::Describe => SetupStepView::Describe,
            SetupStep::Create => SetupStepView::Create,
            SetupStep::Settle => SetupStepView::Settle,
            SetupStep::Done(r) => SetupStepView::Done(backend::unit_view(r)),
        }
    }
}

impl View for SetupOutcome {
    type V = SetupOutcomeView;

    open spec fn view(&self) -> SetupOutcomeView {
        match *self {
            SetupOutcome::Taken => SetupOutcomeView::Taken,
            SetupOutcome::Refused(e) => SetupOutcomeView::Refused(e@),
        }
    }
}

/// The text for a device file that could not be opened.
pub open spec fn open_error(cause: Seq<char>) -> Seq<char> {
    "open /dev/uinput: "@ + cause
        + " (need write access — logind uaccess ACL, `uinput` group, or root)"@
}

/// The text for a description that could not be written.
pub open spec fn describe_error(cause: Seq<char>) -> Seq<char> {
    "write uinput_user_dev: "@ + cause
}

/// The text for a device that could not be created.
pub open spec fn create_error(cause: Seq<char>) -> Seq<char> {
    "UI_DEV_CREATE: "@ + cause
}

/// The step after a request: the next request, or the description after the last.
pub open spec fn step_behind(at: int) -> SetupStepView {
    if at + 1 < setup_plan().len() {
        SetupStepView::Request { at: at + 1 }
    } else {
        SetupStepView::Describe
    }
}

/// The step after a step and what came of it. What is refused ends the setup, but
/// for a request that need not succeed.
pub open spec fn setup_after(step: SetupStepView, outcome: SetupOutcomeView) -> SetupStepView {
    match (step, outcome) {
        (SetupStepView::Open, SetupOutcomeView::Taken) => SetupStepView::Request { at: 0 },
        (SetupStepView::Open, SetupOutcomeView::Refused(e)) => SetupStepView::Done(
            Err(open_error(e)),
        ),
        (SetupStepView::Request { at }, SetupOutcomeView::Refused(e)) => if 0 <= at
            < setup_plan().len() && setup_plan()[at].must_succeed {
            SetupStepView::Done(Err(request_error(setup_plan()[at].request, setup_plan()[at].arg, e)))
        } else {
            step_behind(at)
        },
        (SetupStepView::Request { at }, SetupOutcomeView::Taken) => step_behind(at),
        (SetupStepView::Describe, SetupOutcomeView::Taken) => SetupStepView::Create,
        (SetupStepView::Describe, SetupOutcomeView::Refused(e)) => SetupStepView::Done(
            Err(describe_error(e)),
        ),
        (SetupStepView::Create, SetupOutcomeView::Taken) => SetupStepView::Settle,
        (SetupStepView::Create, SetupOutcomeView::Refused(e)) => SetupStepView::Done(
            Err(create_error(e)),
        ),
        (SetupStepView::Settle, _) => SetupStepView::Done(Ok(())),
        (SetupStepView::Done(_), _) => step,
    }
}

/// The first step.
pub fn first_setup_step() -> (r: SetupStep)
    ensures
        r@ == SetupStepView::Open,
{
    SetupStep::Open
}

/// The step after a step and what came of it.
pub fn next_setup_step(step: SetupStep, outcome: SetupOutcome) -> (r: SetupStep)
    ensures
        r@ == setup_after(step@, outcome@),
{
    match (step, outcome) {
        (SetupStep::Open, SetupOutcome::Taken) => SetupStep::Request { at: 0 },
        (SetupStep::Open, SetupOutcome::Refused(e)) => {
            let mut text = text::join("open /dev/uinput: ", e.as_str());
            text.append(" (need write access — logind uaccess ACL, `uinput` group, or root)");
            SetupStep::Done(Err(text))
        },
        (SetupStep::Request { at }, outcome) => {
            if at < SETUP_REQUESTS {
                let request = request_at(at);
                if request.must_succeed {
                    match outcome {
                        SetupOutcome::Refused(e) => {
                            return SetupStep::Done(
                                Err(ioctl_error(request.request, request.arg, e.as_str())),
                            );
                        },
                        SetupOutcome::Taken => {},
                    }
                }
            }
            if at < SETUP_REQUESTS - 1 {
                SetupStep::Request { at: at + 1 }
            } else {
                SetupStep::Describe
            }
        },
        (SetupStep::Describe, SetupOutcome::Taken) => SetupStep::Create,
        (SetupStep::Describe, SetupOutcome::Refused(e)) => SetupStep::Done(
            Err(text::join("write uinput_user_dev: ", e.as_str())),
        ),
        (SetupStep::Create, SetupOutcome::Taken) => SetupStep::Settle,
        (SetupStep::Create, SetupOutcome::Refused(e)) => SetupStep::Done(
            Err(text::join("UI_DEV_CREATE: ", e.as_str())),
        ),
        (SetupStep::Settle, _) => SetupStep::Done(Ok(())),
        (SetupStep::Done(r), _) => SetupStep::Done(r),
    }
}

/// The step after the outcomes, from the first step on.
pub open spec fn setup_run(outcomes: Seq<SetupOutcomeView>) -> SetupStepView
    decreases outcomes.len(),
{
    if outcomes.len() == 0 {
        SetupStepView::Open
    } else {
        setup_after(setup_run(outcomes.drop_last()), outcomes.last())
    }
}

/// What setting up comes to, by what came of opening the device file, of each of
/// the requests, of writing the description and of creating the device: the error
/// of the first that must succeed and was refused, or success.
pub open spec fn setup_result(
    opened: SetupOutcomeView,
    requested: Seq<SetupOutcomeView>,
    described: SetupOutcomeView,
    created: SetupOutcomeView,
) -> Result<(), Seq<char>> {
    match (opened, requested[0], requested[1], described, created) {
        (SetupOutcomeView::Refused(e), _, _, _, _) => Err(open_error(e)),
        (_, SetupOutcomeView::Refused(e), _, _, _) => Err(request_error(UI_SET_EVBIT, EV_KEY, e)),
        (_, _, SetupOutcomeView::Refused(e), _, _) => Err(request_error(UI_SET_EVBIT, EV_SYN, e)),
        (_, _, _, SetupOutcomeView::Refused(e), _) => Err(describe_error(e)),
        (_, _, _, _, SetupOutcomeView::Refused(e)) => Err(create_error(e)),
        _ => Ok(()),
    }
}

/// The outcomes of all steps, one after the other.
pub open spec fn setup_outcomes(
    opened: SetupOutcomeView,
    requested: Seq<SetupOutcomeView>,
    described: SetupOutcomeView,
    created: SetupOutcomeView,
    settled: SetupOutcomeView,
) -> Seq<SetupOutcomeView> {
    seq![opened] + requested + seq![described, created, settled]
}

/// Once setting up has come to an end, it stays there.
proof fn lemma_setup_ends(outcomes: Seq<SetupOutcomeView>, at: int)
    requires
        0 <= at <= outcomes.len(),
        setup_run(outcomes.take(at)) is Done,
    ensures
        setup_run(outcomes) == setup_run(outcomes.take(at)),
    decreases outcomes.len() - at,
{
    if at == outcomes.len() {
        assert(outcomes.take(at) =~= outcomes);
    } else {
        assert(outcomes.take(at + 1).drop_last() =~= outcomes.take(at));
        lemma_setup_ends(outcomes, at + 1);
    }
}

/// Where the first two requests are taken, the others lead to the description,
/// whatever comes of them.
proof fn lemma_setup_requests(outcomes: Seq<SetupOutcomeView>, made: int)
    requires
        2 <= made <= SETUP_REQUESTS,
        made < outcomes.len(),
        outcomes[0] is Taken,
        outcomes[1] is Taken,
        outcomes[2] is Taken,
    ensures
        setup_run(outcomes.take(made + 1)) == step_behind(made - 1),
    decreases made,
{
    assert(outcomes.take(made + 1).drop_last() =~= outcomes.take(made));
    assert(outcomes.take(made + 1).last() == outcomes[made]);
    if made > 2 {
        lemma_setup_requests(outcomes, made - 1);
    } else {
        lemma_setup_start(outcomes);
    }
}

/// The first steps.
proof fn lemma_setup_start(outcomes: Seq<SetupOutcomeView>)
    requires
        outcomes.len() > 2,
    ensures
        setup_run(outcomes.take(1)) == setup_after(SetupStepView::Open, outcomes[0]),
        setup_run(outcomes.take(2)) == setup_after(setup_run(outcomes.take(1)), outcomes[1]),
        setup_run(outcomes.take(3)) == setup_after(setup_run(outcomes.take(2)), outcomes[2]),
{
    assert(outcomes.take(1).drop_last() =~= Seq::empty());
    assert(setup_run(Seq::empty()) == SetupStepView::Open);
    assert(outcomes.take(2).drop_last() =~= outcomes.take(1));
    assert(outcomes.take(3).drop_last() =~= outcomes.take(2));
}

/// Setting up the virtual keyboard succeeds exactly when the device file can be
/// opened, both event types are taken, the description is written and the device
/// is created. A refused key is passed over. What fails first is what is reported.
pub proof fn law_setup(
    opened: SetupOutcomeView,
    requested: Seq<SetupOutcomeView>,
    described: SetupOutcomeView,
    created: SetupOutcomeView,
    settled: SetupOutcomeView,
)
    requires
        requested.len() == setup_plan().len(),
    ensures
        setup_run(setup_outcomes(opened, requested, described, created, settled))
            == SetupStepView::Done(setup_result(opened, requested, described, created)),
        setup_result(opened, requested, described, created) is Ok <==> opened is Taken
            && requested[0] is Taken && requested[1] is Taken && described is Taken
            && created is Taken,
{
    let all = setup_outcomes(opened, requested, described, created, settled);
    let n = SETUP_REQUESTS as int;
    assert(all[1] == requested[0] && all[2] == requested[1]);
    lemma_setup_start(all);
    if opened is Refused {
        lemma_setup_ends(all, 1);
    } else if requested[0] is Refused {
        lemma_setup_ends(all, 2);
    } else if requested[1] is Refused {
        lemma_setup_ends(all, 3);
    } else {
        lemma_setup_requests(all, n);
        assert(all.take(n + 2).drop_last() =~= all.take(n + 1));
        assert(all.take(n + 2).last() == described);
        assert(all.take(n + 3).drop_last() =~= all.take(n + 2));
        assert(all.take(n + 3).last() == created);
        assert(all.drop_last() =~= all.take(n + 3));
        if described is Refused {
            lemma_setup_ends(all, n + 2);
        } else if created is Refused {
            lemma_setup_ends(all, n + 3);
        }
    }
}

/// Bytes that are all zero.
pub open spec fn zeros(count: int) -> Seq<u8> {
    Seq::new(count as nat, |i: int| 0u8)
}

/// The name field of the description: the name, filled up with zero bytes.
pub open spec fn name_field() -> Seq<u8> {
    OWN_INJECTION_NAME.spec_bytes() + zeros(NAME_LEN - OWN_INJECTION_NAME.spec_bytes().len())
}

/// The description of the device: its name, how it is attached, and nothing else.
pub open spec fn description(order: ByteOrder) -> Seq<u8> {
    name_field() + event::bytes16(BUS_USB as int, order) + event::bytes16(VENDOR as int, order)
        + event::bytes16(PRODUCT as int, order) + event::bytes16(VERSION as int, order) + zeros(
        DESCRIPTION_SIZE - NAME_LEN - 8,
    )
}

/// Appends zero bytes up to the given length.
fn fill(out: &mut Vec<u8>, len: usize)
    requires
        old(out)@.len() <= len,
    ensures
        final(out)@ == old(out)@ + zeros(len - old(out)@.len()),
{
    let ghost start = out@;
    proof {
        assert(out@ =~= start + zeros(0));
    }
    while out.len() < len
        invariant
            start.len() <= out@.len() <= len,
            out@ == start + zeros(out@.len() - start.len()),
        decreases len - out@.len(),
    {
        out.push(0);
        proof {
            assert(out@ =~= start + zeros(out@.len() - start.len()));
        }
    }
}

/// The name is plain ASCII without zero bytes, and fits its field.
proof fn lemma_name_bytes()
    ensures
        OWN_INJECTION_NAME.spec_bytes().len() == 23,
        forall|i: int|
            0 <= i < 23 ==> (#[trigger] OWN_INJECTION_NAME.spec_bytes()[i]) != 0,
{
    reveal_strlit("Wispr Flow Linux Helper");
    assert(vstd::string::is_ascii(OWN_INJECTION_NAME));
    vstd::string::is_ascii_spec_bytes(OWN_INJECTION_NAME);
}

/// The description to write to the device before it is created.
pub fn device_description(order: ByteOrder) -> (r: Vec<u8>)
    ensures
        r@ == description(order),
        r@.len() == DESCRIPTION_SIZE,
{
    proof {
        lemma_name_bytes();
    }
    let name = OWN_INJECTION_NAME.as_bytes();
    let mut out: Vec<u8> = Vec::new();
    let mut i: usize = 0;
    while i < name.len()
        invariant
            i <= name@.len(),
            out@ == name@.take(i as int),
        decreases name@.len() - i,
    {
        out.push(name[i]);
        i = i + 1;
        proof {
            assert(name@.take(i as int) =~= name@.take(i - 1).push(name@[i - 1]));
        }
    }
    proof {
        assert(name@.take(i as int) =~= name@);
    }
    fill(&mut out, NAME_LEN);
    event::push16(&mut out, BUS_USB, order);
    event::push16(&mut out, VENDOR, order);
    event::push16(&mut out, PRODUCT, order);
    event::push16(&mut out, VERSION, order);
    fill(&mut out, DESCRIPTION_SIZE);
    out
}

/// The text of a failed request.
pub open spec fn request_error(request: u64, arg: u16, cause: Seq<char>) -> Seq<char> {
    "ioctl "@ + text::hex(request as nat) + "("@ + text::decimal(arg as nat) + "): "@ + cause
}

/// The text of a failed request.
pub fn ioctl_error(request: u64, arg: u16, cause: &str) -> (r: String)
    ensures
        r@ == request_error(request, arg, cause@),
{
    let mut out = "ioctl ".to_owned();
    out.append(text::hex_text(request).as_str());
    out.append("(");
    out.append(text::decimal_text(arg as u64).as_str());
    out.append("): ");
    out.append(cause);
    out
}

/// A modifier is down on one of the devices, by the bitmaps of the keys that are
/// down.
pub open spec fn is_held_modifier(bitmaps: Seq<Vec<u8>>, code: u16) -> bool {
    &&& EVDEV_MODIFIERS@.contains(code)
    &&& exists|d: int|
        0 <= d < bitmaps.len() && capture::has_bit((#[trigger] bitmaps[d])@, code)
}

/// Whether a key is down on one of the devices.
fn is_down(bitmaps: &Vec<Vec<u8>>, code: u16) -> (r: bool)
    ensures
        r == exists|d: int|
            0 <= d < bitmaps@.len() && capture::has_bit((#[trigger] bitmaps@[d])@, code),
{
    let mut d: usize = 0;
    while d < bitmaps.len()
        invariant
            d <= bitmaps@.len(),
            forall|e: int| 0 <= e < d ==> !capture::has_bit((#[trigger] bitmaps@[e])@, code),
        decreases bitmaps@.len() - d,
    {
        if capture::bit_set(bitmaps[d].as_slice(), code) {
            return true;
        }
        d = d + 1;
    }
    false
}

/// The codes are the modifiers that are down on any of the devices, each once and
/// in ascending order.
pub open spec fn is_snapshot(bitmaps: Seq<Vec<u8>>, held: Seq<u16>) -> bool {
    &&& forall|code: u16| #[trigger] held.contains(code) <==> is_held_modifier(bitmaps, code)
    &&& forall|i: int, j: int| 0 <= i < j < held.len() ==> held[i] < held[j]
}

/// The modifiers that are down on any of the devices, by the bitmaps of the keys
/// that are down: each once, in ascending order.
pub fn held_modifiers(bitmaps: &Vec<Vec<u8>>) -> (r: Vec<u16>)
    ensures
        is_snapshot(bitmaps@, r@),
{
    let mut out: Vec<u16> = Vec::new();
    let mut k: usize = 0;
    while k < 8
        invariant
            k <= 8,
            forall|i: int| 0 <= i < out@.len() ==> is_held_modifier(bitmaps@, #[trigger] out@[i]),
            forall|m: int|
                0 <= m < k && is_held_modifier(bitmaps@, #[trigger] EVDEV_MODIFIERS@[m])
                    ==> out@.contains(EVDEV_MODIFIERS@[m]),
            forall|i: int, j: int| 0 <= i < j < out@.len() ==> out@[i] < out@[j],
            k < 8 ==> forall|i: int|
                0 <= i < out@.len() ==> #[trigger] out@[i] < EVDEV_MODIFIERS@[k as int],
        decreases 8 - k,
    {
        let ghost before = out@;
        let code = EVDEV_MODIFIERS[k];
        proof {
            assert(EVDEV_MODIFIERS@[k as int] == code);
            assert(EVDEV_MODIFIERS@.contains(code));
        }
        if is_down(bitmaps, code) {
            out.push(code);
            proof {
                assert(out@[out@.len() - 1] == code);
            }
        }
        proof {
            assert forall|m: int|
                0 <= m < k + 1 && is_held_modifier(
                    bitmaps@,
                    #[trigger] EVDEV_MODIFIERS@[m],
                ) implies out@.contains(EVDEV_MODIFIERS@[m]) by {
                if m < k {
                    let i = choose|i: int|
                        0 <= i < before.len() && before[i] == EVDEV_MODIFIERS@[m];
                    assert(out@[i] == EVDEV_MODIFIERS@[m]);
                }
            }
            if k + 1 < 8 {
                assert(EVDEV_MODIFIERS@[k as int] < EVDEV_MODIFIERS@[k + 1]);
            }
        }
        k = k + 1;
    }
    proof {
        assert forall|code: u16| #[trigger] out@.contains(code) <==> is_held_modifier(
            bitmaps@,
            code,
        ) by {
            if is_held_modifier(bitmaps@, code) {
                let m = choose|m: int|
                    0 <= m < EVDEV_MODIFIERS@.len() && EVDEV_MODIFIERS@[m] == code;
                assert(is_held_modifier(bitmaps@, EVDEV_MODIFIERS@[m]));
            }
        }
    }
    out
}

/// Presses a chord while the user may hold modifiers down on real keyboards, by
/// the bitmaps of the keys that are down there. Those are released first.
pub fn chord<W: EventWriter>(
    writer: &mut W,
    key: u16,
    mods: &[u16],
    bitmaps: &Vec<Vec<u8>>,
) -> (r: Result<(), String>)
    ensures
        exists|
            held: Seq<u16>,
            outcomes: Seq<KeyOutcome>,
            tried: int,
            again: bool,
            writes: Seq<EventWrite>,
        |
            {
                &&& is_snapshot(bitmaps@, held)
                &&& #[trigger] uinput::chord_run(
                    key,
                    mods@,
                    held,
                    outcomes,
                    tried,
                    again,
                    writes,
                    uinput::error_of(r),
                )
                &&& uinput::writes_lead(*old(writer), writes, *final(writer))
            },
{
    let held = held_modifiers(bitmaps);
    uinput::write_chord(writer, key, mods, held.as_slice())
}

/// The snapshot of the held modifiers is determined by the bitmaps. Without a
/// device that can be read it is empty.
pub proof fn law_snapshot_is_determined(bitmaps: Seq<Vec<u8>>, a: Seq<u16>, b: Seq<u16>)
    requires
        is_snapshot(bitmaps, a),
        is_snapshot(bitmaps, b),
    ensures
        a == b,
        bitmaps.len() == 0 ==> a.len() == 0,
{
    assert forall|code: u16| a.contains(code) <==> b.contains(code) by {}
    lemma_ascending_is_determined(a, b);
    if a.len() > 0 {
        assert(a.contains(a[0]));
    }
}

/// Ascending sequences with the same members are the same.
proof fn lemma_ascending_is_determined(a: Seq<u16>, b: Seq<u16>)
    requires
        forall|code: u16| #[trigger] a.contains(code) <==> b.contains(code),
        forall|i: int, j: int| 0 <= i < j < a.len() ==> a[i] < a[j],
        forall|i: int, j: int| 0 <= i < j < b.len() ==> b[i] < b[j],
    ensures
        a == b,
    decreases a.len(),
{
    if a.len() == 0 {
        if b.len() > 0 {
            assert(b.contains(b[0]));
            assert(a.contains(b[0]));
        }
        assert(a =~= b);
    } else {
        assert(a.contains(a.last()));
        assert(b.contains(a.last()));
        assert(b.contains(b.last()));
        assert(a.contains(b.last()));
        let i = choose|i: int| 0 <= i < b.len() && b[i] == a.last();
        let j = choose|j: int| 0 <= j < a.len() && a[j] == b.last();
        assert(b[i] <= b.last());
        assert(a[j] <= a.last());
        assert(a.last() == b.last());
        let shorter_a = a.drop_last();
        let shorter_b = b.drop_last();
        assert forall|code: u16| #[trigger] shorter_a.contains(code) <==> shorter_b.contains(code) by {
            if shorter_a.contains(code) {
                let k = choose|k: int| 0 <= k < shorter_a.len() && shorter_a[k] == code;
                assert(a[k] == code);
                assert(a.contains(code));
                let l = choose|l: int| 0 <= l < b.len() && b[l] == code;
                assert(shorter_b[l] == code);
            }
            if shorter_b.contains(code) {
                let k = choose|k: int| 0 <= k < shorter_b.len() && shorter_b[k] == code;
                assert(b[k] == code);
                assert(b.contains(code));
                assert(a.contains(code));
                let l = choose|l: int| 0 <= l < a.len() && a[l] == code;
                assert(shorter_a[l] == code);
            }
        }
        lemma_ascending_is_determined(shorter_a, shorter_b);
        assert(a =~= shorter_a.push(a.last()));
        assert(b =~= shorter_b.push(b.last()));
    }
}

/// The virtual keyboard is known by its name, so capture passes over it.
pub proof fn law_own_keyboard_is_recognised(name: &[u8], order: ByteOrder)
    requires
        name@ == description(order).take(NAME_LEN as int),
    ensures
        capture::has_own_name(Some(name)),
{
    lemma_name_bytes();
    let own = OWN_INJECTION_NAME.spec_bytes();
    assert(name@ =~= name_field());
    bytes::lemma_until_zero(name@, own.len() as int);
    assert(name@.take(own.len() as int) =~= own);
}

/// The requests one by one: the two event types, which must be taken, and every key
/// from the first to the last, which need not be.
pub proof fn law_requests(at: int)
    ensures
        setup_plan().len() == 769,
        setup_plan()[0] == (SetupRequest { request: 0x4004_5564, arg: 1, must_succeed: true }),
        setup_plan()[1] == (SetupRequest { request: 0x4004_5564, arg: 0, must_succeed: true }),
        2 <= at < 769 ==> setup_plan()[at] == (SetupRequest {
            request: 0x4004_5565,
            arg: (at - 1) as u16,
            must_succeed: false,
        }),
{
}

/// The description byte by byte: the name of the helper's keyboard, filled up to its
/// field, then four numbers of two bytes, then zeros.
pub proof fn law_description(order: ByteOrder)
    ensures
        ({
            let d = description(order);
            let name = "Wispr Flow Linux Helper".spec_bytes();
            &&& d.len() == 1116
            &&& d.take(23) == name
            &&& forall|i: int| 23 <= i < 80 ==> #[trigger] d[i] == 0
            &&& forall|i: int| 88 <= i < 1116 ==> #[trigger] d[i] == 0
            &&& order is LowFirst ==> d.subrange(80, 88) == seq![
                3u8,
                0u8,
                0x34u8,
                0x12u8,
                0x78u8,
                0x56u8,
                1u8,
                0u8,
            ]
            &&& order is HighFirst ==> d.subrange(80, 88) == seq![
                0u8,
                3u8,
                0x12u8,
                0x34u8,
                0x56u8,
                0x78u8,
                0u8,
                1u8,
            ]
        }),
{
    lemma_name_bytes();
    let d = description(order);
    let name = OWN_INJECTION_NAME.spec_bytes();
    assert(d.take(23) =~= name);
    assert forall|i: int| 80 <= i < 88 implies #[trigger] d[i] == (event::bytes16(3, order)
        + event::bytes16(0x1234, order) + event::bytes16(0x5678, order) + event::bytes16(
        1,
        order,
    ))[i - 80] by {}
    if order is LowFirst {
        assert(d.subrange(80, 88) =~= seq![
            3u8,
            0u8,
            0x34u8,
            0x12u8,
            0x78u8,
            0x56u8,
            1u8,
            0u8,
        ]);
    } else {
        assert(d.subrange(80, 88) =~= seq![
            0u8,
            3u8,
            0x12u8,
            0x34u8,
            0x56u8,
            0x78u8,
            0u8,
            1u8,
        ]);
    }
}

/// What is said of each failure, in full.
pub proof fn law_setup_errors(cause: Seq<char>, request: u64, arg: u16)
    ensures
        open_error(cause) == "open /dev/uinput: "@ + cause
            + " (need write access — logind uaccess ACL, `uinput` group, or root)"@,
        describe_error(cause) == "write uinput_user_dev: "@ + cause,
        create_error(cause) == "UI_DEV_CREATE: "@ + cause,
        request_error(request, arg, cause) == "ioctl "@ + text::hex(request as nat) + "("@
            + text::decimal(arg as nat) + "): "@ + cause,
{
}

/// The steps of the setup follow each other: opening, the requests in order, the
/// description, the creation, a wait. Each failure that counts ends it with its own
/// error, and an end stays.
pub proof fn law_setup_order(at: int, cause: Seq<char>, outcome: SetupOutcomeView, done: Result<
    (),
    Seq<char>,
>)
    requires
        0 <= at < 769,
    ensures
        setup_after(SetupStepView::Open, SetupOutcomeView::Taken) == (SetupStepView::Request {
            at: 0,
        }),
        setup_after(SetupStepView::Request { at }, SetupOutcomeView::Taken) == (if at < 768 {
            SetupStepView::Request { at: at + 1 }
        } else {
            SetupStepView::Describe
        }),
        2 <= at ==> setup_after(SetupStepView::Request { at }, SetupOutcomeView::Refused(cause))
            == setup_after(SetupStepView::Request { at }, SetupOutcomeView::Taken),
        at < 2 ==> setup_after(SetupStepView::Request { at }, SetupOutcomeView::Refused(cause))
            == SetupStepView::Done(
            Err(
                "ioctl "@ + text::hex(0x4004_5564) + "("@ + text::decimal((1 - at) as nat)
                    + "): "@ + cause,
            ),
        ),
        setup_after(SetupStepView::Describe, SetupOutcomeView::Taken) == SetupStepView::Create,
        setup_after(SetupStepView::Create, SetupOutcomeView::Taken) == SetupStepView::Settle,
        setup_after(SetupStepView::Settle, outcome) == SetupStepView::Done(Ok(())),
        setup_after(SetupStepView::Done(done), outcome) == SetupStepView::Done(done),
        setup_after(SetupStepView::Open, SetupOutcomeView::Refused(cause)) == SetupStepView::Done(
            Err(
                "open /dev/uinput: "@ + cause
                    + " (need write access — logind uaccess ACL, `uinput` group, or root)"@,
            ),
        ),
        setup_after(SetupStepView::Describe, SetupOutcomeView::Refused(cause))
            == SetupStepView::Done(Err("write uinput_user_dev: "@ + cause)),
        setup_after(SetupStepView::Create, SetupOutcomeView::Refused(cause)) == SetupStepView::Done(
            Err("UI_DEV_CREATE: "@ + cause),
        ),
{
}

/// The held modifiers are the two each of Control, Shift, Alt and Meta whose bit is
/// set on a device, in ascending order.
pub proof fn law_held_modifiers(bitmaps: Seq<Vec<u8>>, held: Seq<u16>, code: u16)
    requires
        is_snapshot(bitmaps, held),
    ensures
        held.contains(code) <==> (code == 29 || code == 42 || code == 54 || code == 56 || code == 97
            || code == 100 || code == 125 || code == 126) && exists|d: int|
            0 <= d < bitmaps.len() && capture::has_bit((#[trigger] bitmaps[d])@, code),
        forall|i: int, j: int| 0 <= i < j < held.len() ==> held[i] < held[j],
{
    assert(EVDEV_MODIFIERS@.len() == 8);
    assert(EVDEV_MODIFIERS@[0] == 29 && EVDEV_MODIFIERS@[1] == 42 && EVDEV_MODIFIERS@[2] == 54
        && EVDEV_MODIFIERS@[3] == 56 && EVDEV_MODIFIERS@[4] == 97 && EVDEV_MODIFIERS@[5] == 100
        && EVDEV_MODIFIERS@[6] == 125 && EVDEV_MODIFIERS@[7] == 126);
}

/// What steps and outcomes of the setup say is what they hold.
pub proof fn law_setup_views(at: usize, e: String)
    ensures
        SetupStep::Open@ == SetupStepView::Open,
        (SetupStep::Request { at })@ == (SetupStepView::Request { at: at as int }),
        SetupStep::Describe@ == SetupStepView::Describe,
        SetupStep::Create@ == SetupStepView::Create,
        SetupStep::Settle@ == SetupStepView::Settle,
        SetupStep::Done(Ok(()))@ == SetupStepView::Done(Ok(())),
        SetupStep::Done(Err(e))@ == SetupStepView::Done(Err(e@)),
        SetupOutcome::Taken@ == SetupOutcomeView::Taken,
        SetupOutcome::Refused(e)@ == SetupOutcomeView::Refused(e@),
{
}

/// The numbers of the requests, the size of the description and the wait.
pub proof fn law_device_numbers()
    ensures
        UI_DEV_CREATE == 0x5501,
        UI_DEV_DESTROY == 0x5502,
        UI_SET_EVBIT == 0x4004_5564,
        UI_SET_KEYBIT == 0x4004_5565,
        DESCRIPTION_SIZE == 1116,
        SETTLE_MS == 200,
{
}

} // verus!
