//! The virtual keyboard: which kernel input events make up a key chord, and what
//! becomes of it when the device refuses some of them.
use crate::event::{InputEvent, EV_KEY, EV_SYN, SYN_REPORT};
use vstd::prelude::*;

verus! {

/// One attempt to hand an event to a device: the event, and the error text if
/// the device refused it.
pub struct EventWrite {
    pub event: InputEvent,
    pub error: Option<Seq<char>>,
}

/// The error text of a result, or `None` for success.
pub open spec fn error_of<T>(r: Result<T, String>) -> Option<Seq<char>> {
    match r {
        Ok(_) => None,
        Err(e) => Some(e@),
    }
}

/// A device that input events can be written to.
pub trait EventWriter {
    /// The attempt `write` may take the device from state `pre` to `post`.
    open spec fn takes(pre: &Self, write: EventWrite, post: &Self) -> bool {
        true
    }

    /// Writes one event.
    fn write_event(&mut self, type_: u16, code: u16, value: i32) -> (r: Result<(), String>)
        ensures
            Self::takes(
                old(self),
                EventWrite { event: InputEvent { type_, code, value }, error: error_of(r) },
                final(self),
            ),
    ;
}

/// The attempts, made in order and without any other between them, may take the
/// device from `pre` to `post`.
pub open spec fn writes_lead<W: EventWriter>(pre: W, writes: Seq<EventWrite>, post: W) -> bool
    decreases writes.len(),
{
    if writes.len() == 0 {
        pre == post
    } else {
        exists|mid: W|
            writes_lead(pre, writes.drop_last(), mid) && #[trigger] W::takes(
                &mid,
                writes.last(),
                &post,
            )
    }
}

proof fn lemma_writes_lead_push<W: EventWriter>(
    pre: W,
    writes: Seq<EventWrite>,
    mid: W,
    write: EventWrite,
    post: W,
)
    requires
        writes_lead(pre, writes, mid),
        W::takes(&mid, write, &post),
    ensures
        writes_lead(pre, writes.push(write), post),
{
    reveal_with_fuel(writes_lead, 2);
    let all = writes.push(write);
    assert(all.drop_last() =~= writes);
    assert(W::takes(&mid, all.last(), &post));
}

proof fn lemma_writes_lead_join<W: EventWriter>(
    pre: W,
    first: Seq<EventWrite>,
    mid: W,
    second: Seq<EventWrite>,
    post: W,
)
    requires
        writes_lead(pre, first, mid),
        writes_lead(mid, second, post),
    ensures
        writes_lead(pre, first + second, post),
    decreases second.len(),
{
    reveal_with_fuel(writes_lead, 2);
    if second.len() == 0 {
        assert(first + second =~= first);
    } else {
        let last = choose|last: W|
            writes_lead(mid, second.drop_last(), last) && #[trigger] W::takes(
                &last,
                second.last(),
                &post,
            );
        lemma_writes_lead_join(pre, first, mid, second.drop_last(), last);
        lemma_writes_lead_push(pre, first + second.drop_last(), last, second.last(), post);
        assert((first + second.drop_last()).push(second.last()) =~= first + second);
    }
}

/// A key going down (`press`) or up.
pub struct KeyStep {
    pub code: u16,
    pub press: bool,
}

/// What became of a key step, which takes two events: the key event and the
/// report that closes it.
pub enum KeyOutcome {
    /// The device took both events.
    Written,
    /// The device refused the key event; the report was not tried.
    KeyRefused(Seq<char>),
    /// The device took the key event and refused the report.
    ReportRefused(Seq<char>),
}

impl KeyOutcome {
    /// The error that the outcome carries.
    pub open spec fn error(self) -> Option<Seq<char>> {
        match self {
            KeyOutcome::Written => None,
            KeyOutcome::KeyRefused(e) => Some(e),
            KeyOutcome::ReportRefused(e) => Some(e),
        }
    }
}

/// The event that moves a key.
pub open spec fn key_event(step: KeyStep) -> InputEvent {
    InputEvent {
        type_: EV_KEY,
        code: step.code,
        value: if step.press { 1 } else { 0 },
    }
}

/// The event that closes a group of events.
pub open spec fn report_event() -> InputEvent {
    InputEvent { type_: EV_SYN, code: SYN_REPORT, value: 0 }
}

/// The writes that one key step makes when `outcome` is what became of it.
pub open spec fn step_writes(step: KeyStep, outcome: KeyOutcome) -> Seq<EventWrite> {
    let key = key_event(step);
    match outcome {
        KeyOutcome::Written => seq![
            EventWrite { event: key, error: None },
            EventWrite { event: report_event(), error: None },
        ],
        KeyOutcome::KeyRefused(e) => seq![EventWrite { event: key, error: Some(e) }],
        KeyOutcome::ReportRefused(e) => seq![
            EventWrite { event: key, error: None },
            EventWrite { event: report_event(), error: Some(e) },
        ],
    }
}

/// The writes of a run of key steps, one after the other.
pub open spec fn run_writes(steps: Seq<KeyStep>, outcomes: Seq<KeyOutcome>) -> Seq<EventWrite>
    decreases steps.len(),
{
    if steps.len() == 0 {
        Seq::empty()
    } else {
        run_writes(steps.drop_last(), outcomes.drop_last()) + step_writes(
            steps.last(),
            outcomes.last(),
        )
    }
}

/// The earliest error among the outcomes.
pub open spec fn first_error(outcomes: Seq<KeyOutcome>) -> Option<Seq<char>>
    decreases outcomes.len(),
{
    if outcomes.len() == 0 {
        None
    } else {
        match first_error(outcomes.drop_last()) {
            Some(e) => Some(e),
            None => outcomes.last().error(),
        }
    }
}

/// The steps that move the keys of `codes`, in order, all in one direction.
pub open spec fn all_steps(codes: Seq<u16>, press: bool) -> Seq<KeyStep> {
    Seq::new(codes.len(), |i: int| KeyStep { code: codes[i], press })
}

/// The steps of a chord in which the presses of the first `tried` keys of
/// `mods` followed by `key` were tried. The keys of `held` go up first; then the
/// tried keys go down in order and come up in reverse. With `again`, the first
/// release of `key` is repeated.
pub open spec fn chord_steps(
    key: u16,
    mods: Seq<u16>,
    held: Seq<u16>,
    tried: int,
    again: bool,
) -> Seq<KeyStep> {
    let pressed = mods.push(key).take(tried);
    all_steps(held, false) + all_steps(pressed, true) + (if again {
        seq![KeyStep { code: key, press: false }]
    } else {
        Seq::empty()
    }) + all_steps(pressed.reverse(), false)
}

/// How far a chord got, given what became of its steps (`outcomes`, of which
/// the first `held` belong to the held keys). Pressing stops at the first press
/// that fails; a key release that fails after every press succeeded is repeated.
pub open spec fn chord_progress(
    held: nat,
    presses: nat,
    outcomes: Seq<KeyOutcome>,
    tried: int,
    again: bool,
) -> bool {
    &&& 1 <= tried <= presses
    &&& outcomes.len() == held + 2 * tried + (if again { 1int } else { 0 })
    &&& forall|i: int| held <= i < held + tried - 1 ==> (#[trigger] outcomes[i]).error() is None
    &&& tried < presses ==> outcomes[held + tried - 1].error() is Some
    &&& again == (tried == presses && outcomes[held + tried - 1].error() is None
        && outcomes[held + tried].error() is Some)
}

/// `writes` is what a chord writes, and `error` what it reports, when `outcomes`
/// is what became of its steps. Failures to release held keys are not reported.
pub open spec fn chord_run(
    key: u16,
    mods: Seq<u16>,
    held: Seq<u16>,
    outcomes: Seq<KeyOutcome>,
    tried: int,
    again: bool,
    writes: Seq<EventWrite>,
    error: Option<Seq<char>>,
) -> bool {
    &&& chord_progress(held.len(), mods.len() + 1, outcomes, tried, again)
    &&& writes == run_writes(chord_steps(key, mods, held, tried, again), outcomes)
    &&& error == first_error(outcomes.skip(held.len() as int))
}

proof fn lemma_run_writes_push(
    steps: Seq<KeyStep>,
    outcomes: Seq<KeyOutcome>,
    step: KeyStep,
    outcome: KeyOutcome,
)
    requires
        steps.len() == outcomes.len(),
    ensures
        run_writes(steps.push(step), outcomes.push(outcome)) == run_writes(steps, outcomes)
            + step_writes(step, outcome),
{
    assert(steps.push(step).drop_last() =~= steps);
    assert(outcomes.push(outcome).drop_last() =~= outcomes);
}

/// Moves one key: the key event, then the report. The report is tried only once
/// the key event was taken.
pub fn write_key<W: EventWriter>(writer: &mut W, code: u16, press: bool) -> (r: Result<(), String>)
    ensures
        exists|o: KeyOutcome|
            #![trigger step_writes(KeyStep { code, press }, o)]
            writes_lead(*old(writer), step_writes(KeyStep { code, press }, o), *final(writer))
                && error_of(r) == o.error(),
{
    let ghost before = *writer;
    let ghost step = KeyStep { code, press };
    let ghost none = Seq::<EventWrite>::empty();
    let value: i32 = if press { 1 } else { 0 };
    let pressed = writer.write_event(EV_KEY, code, value);
    let ghost middle = *writer;
    let ghost key_write = EventWrite { event: key_event(step), error: error_of(pressed) };
    proof {
        assert(writes_lead(before, none, before));
        lemma_writes_lead_push(before, none, before, key_write, middle);
    }
    match pressed {
        Err(e) => {
            proof {
                let o = KeyOutcome::KeyRefused(e@);
                assert(step_writes(step, o) =~= none.push(key_write));
            }
            return Err(e);
        },
        Ok(()) => {},
    }
    let r = writer.write_event(EV_SYN, SYN_REPORT, 0);
    proof {
        let o = match error_of(r) {
            None => KeyOutcome::Written,
            Some(e) => KeyOutcome::ReportRefused(e),
        };
        let report = EventWrite { event: report_event(), error: error_of(r) };
        lemma_writes_lead_push(before, none.push(key_write), middle, report, *writer);
        assert(step_writes(step, o) =~= none.push(key_write).push(report));
    }
    r
}

/// The text of an error that was noted, if any was.
spec fn noted(error: Option<String>) -> Option<Seq<char>> {
    match error {
        Some(e) => Some(e@),
        None => None,
    }
}

/// The first of two errors.
pub open spec fn earlier(first: Option<Seq<char>>, second: Option<Seq<char>>) -> Option<Seq<char>> {
    match first {
        Some(e) => Some(e),
        None => second,
    }
}

/// A run of key steps becomes longer by one step.
proof fn lemma_run_grows<W: EventWriter>(
    base: W,
    steps: Seq<KeyStep>,
    outcomes: Seq<KeyOutcome>,
    before: W,
    step: KeyStep,
    outcome: KeyOutcome,
    after: W,
)
    requires
        steps.len() == outcomes.len(),
        writes_lead(base, run_writes(steps, outcomes), before),
        writes_lead(before, step_writes(step, outcome), after),
    ensures
        writes_lead(base, run_writes(steps.push(step), outcomes.push(outcome)), after),
{
    lemma_run_writes_push(steps, outcomes, step, outcome);
    lemma_writes_lead_join(
        base,
        run_writes(steps, outcomes),
        before,
        step_writes(step, outcome),
        after,
    );
}

proof fn lemma_run_writes_join(
    steps: Seq<KeyStep>,
    outcomes: Seq<KeyOutcome>,
    more_steps: Seq<KeyStep>,
    more_outcomes: Seq<KeyOutcome>,
)
    requires
        steps.len() == outcomes.len(),
        more_steps.len() == more_outcomes.len(),
    ensures
        run_writes(steps + more_steps, outcomes + more_outcomes) == run_writes(steps, outcomes)
            + run_writes(more_steps, more_outcomes),
    decreases more_steps.len(),
{
    if more_steps.len() == 0 {
        assert(steps + more_steps =~= steps);
        assert(outcomes + more_outcomes =~= outcomes);
        assert(run_writes(steps, outcomes) + Seq::empty() =~= run_writes(steps, outcomes));
    } else {
        lemma_run_writes_join(steps, outcomes, more_steps.drop_last(), more_outcomes.drop_last());
        assert((steps + more_steps).drop_last() =~= steps + more_steps.drop_last());
        assert((outcomes + more_outcomes).drop_last() =~= outcomes + more_outcomes.drop_last());
        assert(run_writes(steps + more_steps, outcomes + more_outcomes) =~= run_writes(
            steps,
            outcomes,
        ) + run_writes(more_steps, more_outcomes));
    }
}

proof fn lemma_first_error_push(outcomes: Seq<KeyOutcome>, o: KeyOutcome)
    ensures
        first_error(outcomes.push(o)) == earlier(first_error(outcomes), o.error()),
{
    assert(outcomes.push(o).drop_last() =~= outcomes);
}

proof fn lemma_first_error_join(a: Seq<KeyOutcome>, b: Seq<KeyOutcome>)
    ensures
        first_error(a + b) == earlier(first_error(a), first_error(b)),
    decreases b.len(),
{
    if b.len() == 0 {
        assert(a + b =~= a);
    } else {
        lemma_first_error_join(a, b.drop_last());
        assert((a + b).drop_last() =~= a + b.drop_last());
    }
}

/// Moves one key and notes the error in `error` unless an earlier one is there.
fn write_noted<W: EventWriter>(
    writer: &mut W,
    code: u16,
    press: bool,
    error: &mut Option<String>,
) -> (r: (bool, Ghost<KeyOutcome>))
    ensures
        writes_lead(*old(writer), step_writes(KeyStep { code, press }, r.1@), *final(writer)),
        noted(*final(error)) == earlier(noted(*old(error)), r.1@.error()),
        r.0 == (r.1@.error() is None),
{
    let ghost before = *writer;
    let result = write_key(writer, code, press);
    let ghost outcome = choose|o: KeyOutcome|
        #![trigger step_writes(KeyStep { code, press }, o)]
        writes_lead(before, step_writes(KeyStep { code, press }, o), *writer) && error_of(result)
            == o.error();
    match result {
        Ok(()) => (true, Ghost(outcome)),
        Err(e) => {
            if error.is_none() {
                *error = Some(e);
            }
            (false, Ghost(outcome))
        },
    }
}

/// Releases the keys in order, and passes over errors.
fn release_held<W: EventWriter>(writer: &mut W, held: &[u16]) -> (r: Ghost<Seq<KeyOutcome>>)
    ensures
        r@.len() == held@.len(),
        writes_lead(*old(writer), run_writes(all_steps(held@, false), r@), *final(writer)),
{
    let ghost base = *writer;
    let ghost mut outcomes: Seq<KeyOutcome> = Seq::empty();
    proof {
        assert(run_writes(all_steps(held@.take(0), false), outcomes).len() == 0);
    }
    let mut i: usize = 0;
    while i < held.len()
        invariant
            i <= held@.len(),
            outcomes.len() == i,
            writes_lead(
                base,
                run_writes(all_steps(held@.take(i as int), false), outcomes),
                *writer,
            ),
        decreases held@.len() - i,
    {
        let ghost steps = all_steps(held@.take(i as int), false);
        let ghost step = KeyStep { code: held@[i as int], press: false };
        let ghost before = *writer;
        let mut ignored: Option<String> = None;
        let (_, outcome) = write_noted(writer, held[i], false, &mut ignored);
        proof {
            lemma_run_grows(base, steps, outcomes, before, step, outcome@, *writer);
            assert(all_steps(held@.take(i + 1), false) =~= steps.push(step));
            outcomes = outcomes.push(outcome@);
        }
        i = i + 1;
    }
    proof {
        assert(held@.take(i as int) =~= held@);
    }
    Ghost(outcomes)
}

/// Presses the modifiers in order, up to the first that fails. Returns how many
/// were tried.
fn press_mods<W: EventWriter>(writer: &mut W, mods: &[u16], error: &mut Option<String>) -> (r: (
    usize,
    Ghost<Seq<KeyOutcome>>,
))
    requires
        *old(error) is None,
    ensures
        r.0 <= mods@.len(),
        r.1@.len() == r.0,
        writes_lead(
            *old(writer),
            run_writes(all_steps(mods@.take(r.0 as int), true), r.1@),
            *final(writer),
        ),
        noted(*final(error)) == first_error(r.1@),
        forall|i: int| 0 <= i < r.0 - 1 ==> (#[trigger] r.1@[i]).error() is None,
        *final(error) is None ==> r.0 == mods@.len() && (r.0 > 0 ==> r.1@.last().error() is None),
        *final(error) is Some ==> r.0 > 0 && r.1@.last().error() is Some,
{
    let ghost base = *writer;
    let ghost mut outcomes: Seq<KeyOutcome> = Seq::empty();
    proof {
        assert(run_writes(all_steps(mods@.take(0), true), outcomes).len() == 0);
    }
    let mut count: usize = 0;
    let mut pressing = true;
    while count < mods.len() && pressing
        invariant
            count <= mods@.len(),
            outcomes.len() == count,
            writes_lead(
                base,
                run_writes(all_steps(mods@.take(count as int), true), outcomes),
                *writer,
            ),
            noted(*error) == first_error(outcomes),
            pressing == (*error is None),
            forall|i: int| 0 <= i < count - 1 ==> (#[trigger] outcomes[i]).error() is None,
            pressing && count > 0 ==> outcomes.last().error() is None,
            !pressing ==> count > 0 && outcomes.last().error() is Some,
        decreases mods@.len() - count,
    {
        let ghost steps = all_steps(mods@.take(count as int), true);
        let ghost step = KeyStep { code: mods@[count as int], press: true };
        let ghost before = *writer;
        let (ok, outcome) = write_noted(writer, mods[count], true, error);
        proof {
            lemma_run_grows(base, steps, outcomes, before, step, outcome@, *writer);
            lemma_first_error_push(outcomes, outcome@);
            assert(all_steps(mods@.take(count + 1), true) =~= steps.push(step));
            outcomes = outcomes.push(outcome@);
        }
        pressing = ok;
        count = count + 1;
    }
    (count, Ghost(outcomes))
}

/// The steps of a tap: the key goes down and comes up. With `again`, the release
/// is repeated.
spec fn tap_steps(key: u16, again: bool) -> Seq<KeyStep> {
    let press = KeyStep { code: key, press: true };
    let release = KeyStep { code: key, press: false };
    if again {
        seq![press, release, release]
    } else {
        seq![press, release]
    }
}

/// Taps a key. A release that fails after the press succeeded is repeated.
fn tap_key<W: EventWriter>(writer: &mut W, key: u16, error: &mut Option<String>) -> (r: (
    Ghost<bool>,
    Ghost<Seq<KeyOutcome>>,
))
    requires
        *old(error) is None,
    ensures
        r.1@.len() == tap_steps(key, r.0@).len(),
        writes_lead(*old(writer), run_writes(tap_steps(key, r.0@), r.1@), *final(writer)),
        noted(*final(error)) == first_error(r.1@),
        r.0@ == (r.1@[0].error() is None && r.1@[1].error() is Some),
{
    let ghost base = *writer;
    let ghost press = KeyStep { code: key, press: true };
    let ghost release = KeyStep { code: key, press: false };
    let ghost none = Seq::<KeyStep>::empty();
    let ghost start = Seq::<KeyOutcome>::empty();
    proof {
        assert(run_writes(none, start).len() == 0);
    }
    let (pressed, first) = write_noted(writer, key, true, error);
    let ghost one = start.push(first@);
    let ghost middle = *writer;
    proof {
        lemma_run_grows(base, none, start, base, press, first@, middle);
        lemma_first_error_push(start, first@);
    }
    let (released, second) = write_noted(writer, key, false, error);
    let ghost two = one.push(second@);
    let ghost tapped = *writer;
    proof {
        lemma_run_grows(base, none.push(press), one, middle, release, second@, tapped);
        lemma_first_error_push(one, second@);
        assert(none.push(press).push(release) =~= tap_steps(key, false));
    }
    if pressed && !released {
        let (_, third) = write_noted(writer, key, false, error);
        proof {
            let steps = tap_steps(key, false);
            lemma_run_grows(base, steps, two, tapped, release, third@, *writer);
            lemma_first_error_push(two, third@);
            assert(steps.push(release) =~= tap_steps(key, true));
        }
        return (Ghost(true), Ghost(two.push(third@)));
    }
    (Ghost(false), Ghost(two))
}

/// Releases the first `count` modifiers in reverse.
fn release_mods<W: EventWriter>(
    writer: &mut W,
    mods: &[u16],
    count: usize,
    error: &mut Option<String>,
) -> (r: Ghost<Seq<KeyOutcome>>)
    requires
        count <= mods@.len(),
    ensures
        r@.len() == count,
        writes_lead(
            *old(writer),
            run_writes(all_steps(mods@.take(count as int).reverse(), false), r@),
            *final(writer),
        ),
        noted(*final(error)) == earlier(noted(*old(error)), first_error(r@)),
{
    let ghost base = *writer;
    let ghost before_all = noted(*error);
    let ghost codes = mods@.take(count as int).reverse();
    let ghost mut outcomes: Seq<KeyOutcome> = Seq::empty();
    proof {
        assert(run_writes(all_steps(codes.take(0), false), outcomes).len() == 0);
    }
    let mut left: usize = count;
    while left > 0
        invariant
            left <= count <= mods@.len(),
            codes == mods@.take(count as int).reverse(),
            outcomes.len() == count - left,
            writes_lead(
                base,
                run_writes(all_steps(codes.take(count - left), false), outcomes),
                *writer,
            ),
            noted(*error) == earlier(before_all, first_error(outcomes)),
        decreases left,
    {
        let ghost steps = all_steps(codes.take(count - left), false);
        let ghost before = *writer;
        left = left - 1;
        let ghost step = KeyStep { code: mods@[left as int], press: false };
        let (_, outcome) = write_noted(writer, mods[left], false, error);
        proof {
            lemma_run_grows(base, steps, outcomes, before, step, outcome@, *writer);
            lemma_first_error_push(outcomes, outcome@);
            assert(codes[count - left - 1] == mods@[left as int]);
            assert(all_steps(codes.take(count - left), false) =~= steps.push(step));
            outcomes = outcomes.push(outcome@);
        }
    }
    proof {
        assert(codes.take(count as int) =~= codes);
    }
    Ghost(outcomes)
}

/// A chord whose modifiers were not all pressed is made up of its parts.
proof fn lemma_broken_chord(
    key: u16,
    mods: Seq<u16>,
    held: Seq<u16>,
    count: int,
    freed: Seq<KeyOutcome>,
    pressed: Seq<KeyOutcome>,
    released: Seq<KeyOutcome>,
)
    requires
        0 < count <= mods.len(),
        freed.len() == held.len(),
        pressed.len() == count,
        released.len() == count,
        forall|i: int| 0 <= i < count - 1 ==> (#[trigger] pressed[i]).error() is None,
        pressed.last().error() is Some,
    ensures
        chord_run(
            key,
            mods,
            held,
            freed + pressed + released,
            count,
            false,
            run_writes(all_steps(held, false), freed) + run_writes(
                all_steps(mods.take(count), true),
                pressed,
            ) + run_writes(all_steps(mods.take(count).reverse(), false), released),
            earlier(first_error(pressed), first_error(released)),
        ),
{
    let up = all_steps(held, false);
    let down = all_steps(mods.take(count), true);
    let back = all_steps(mods.take(count).reverse(), false);
    lemma_run_writes_join(up, freed, down, pressed);
    lemma_run_writes_join(up + down, freed + pressed, back, released);
    lemma_first_error_join(pressed, released);
    let outcomes = freed + pressed + released;
    assert(mods.push(key).take(count) =~= mods.take(count));
    assert(chord_steps(key, mods, held, count, false) =~= up + down + back);
    assert(outcomes.skip(held.len() as int) =~= pressed + released);
    assert forall|i: int| held.len() <= i < held.len() + count - 1 implies (
    #[trigger] outcomes[i]).error() is None by {
        assert(outcomes[i] == pressed[i - held.len()]);
    }
    assert(outcomes[held.len() + count - 1] == pressed.last());
}

/// The steps of a chord whose modifiers were all pressed.
proof fn lemma_tapped_steps(key: u16, mods: Seq<u16>, held: Seq<u16>, again: bool)
    ensures
        chord_steps(key, mods, held, mods.len() as int + 1, again) == all_steps(held, false)
            + all_steps(mods, true) + tap_steps(key, again) + all_steps(mods.reverse(), false),
{
    let presses = mods.push(key);
    let press = KeyStep { code: key, press: true };
    let release = KeyStep { code: key, press: false };
    let middle = if again {
        seq![release]
    } else {
        Seq::empty()
    };
    assert(presses.take(mods.len() as int + 1) =~= presses);
    assert(all_steps(presses, true) =~= all_steps(mods, true).push(press));
    assert(presses.reverse() =~= seq![key] + mods.reverse());
    assert(all_steps(presses.reverse(), false) =~= seq![release] + all_steps(
        mods.reverse(),
        false,
    ));
    assert(tap_steps(key, again) =~= seq![press] + middle + seq![release]);
    assert(chord_steps(key, mods, held, mods.len() as int + 1, again) =~= all_steps(held, false)
        + all_steps(mods, true) + tap_steps(key, again) + all_steps(mods.reverse(), false));
}

/// How far a chord got whose modifiers were all pressed.
proof fn lemma_tapped_progress(
    again: bool,
    freed: Seq<KeyOutcome>,
    pressed: Seq<KeyOutcome>,
    tapped: Seq<KeyOutcome>,
    released: Seq<KeyOutcome>,
)
    requires
        pressed.len() == released.len(),
        tapped.len() == (if again {
            3int
        } else {
            2
        }),
        forall|i: int| 0 <= i < pressed.len() ==> (#[trigger] pressed[i]).error() is None,
        again == (tapped[0].error() is None && tapped[1].error() is Some),
    ensures
        chord_progress(
            freed.len(),
            pressed.len() + 1,
            freed + pressed + tapped + released,
            pressed.len() as int + 1,
            again,
        ),
{
    let h = freed.len() as int;
    let m = pressed.len() as int;
    let outcomes = freed + pressed + tapped + released;
    assert forall|i: int| h <= i < h + m implies (#[trigger] outcomes[i]).error() is None by {
        assert(outcomes[i] == pressed[i - h]);
    }
    assert(outcomes[h + m] == tapped[0]);
    assert(outcomes[h + m + 1] == tapped[1]);
}

/// A chord whose modifiers were all pressed is made up of its parts.
proof fn lemma_tapped_chord(
    key: u16,
    mods: Seq<u16>,
    held: Seq<u16>,
    again: bool,
    freed: Seq<KeyOutcome>,
    pressed: Seq<KeyOutcome>,
    tapped: Seq<KeyOutcome>,
    released: Seq<KeyOutcome>,
)
    requires
        freed.len() == held.len(),
        pressed.len() == mods.len(),
        released.len() == mods.len(),
        tapped.len() == tap_steps(key, again).len(),
        forall|i: int| 0 <= i < pressed.len() ==> (#[trigger] pressed[i]).error() is None,
        again == (tapped[0].error() is None && tapped[1].error() is Some),
        first_error(pressed) is None,
    ensures
        chord_run(
            key,
            mods,
            held,
            freed + pressed + tapped + released,
            mods.len() as int + 1,
            again,
            run_writes(all_steps(held, false), freed) + run_writes(all_steps(mods, true), pressed)
                + run_writes(tap_steps(key, again), tapped) + run_writes(
                all_steps(mods.reverse(), false),
                released,
            ),
            earlier(first_error(tapped), first_error(released)),
        ),
{
    let up = all_steps(held, false);
    let down = all_steps(mods, true);
    let tap = tap_steps(key, again);
    let back = all_steps(mods.reverse(), false);
    lemma_run_writes_join(up, freed, down, pressed);
    lemma_run_writes_join(up + down, freed + pressed, tap, tapped);
    lemma_run_writes_join(up + down + tap, freed + pressed + tapped, back, released);
    lemma_first_error_join(pressed, tapped);
    lemma_first_error_join(pressed + tapped, released);
    lemma_tapped_steps(key, mods, held, again);
    lemma_tapped_progress(again, freed, pressed, tapped, released);
    assert((freed + pressed + tapped + released).skip(held.len() as int) =~= pressed + tapped
        + released);
}

/// Presses a chord: holds `mods` in order, taps `key`, then releases everything
/// in reverse. The keys of `held`, which another device holds down, are released
/// first and never pressed again. If a write fails, every key whose press was
/// tried is still released; the first error is the one that is returned.
pub fn write_chord<W: EventWriter>(
    writer: &mut W,
    key: u16,
    mods: &[u16],
    held: &[u16],
) -> (r: Result<(), String>)
    ensures
        exists|outcomes: Seq<KeyOutcome>, tried: int, again: bool, writes: Seq<EventWrite>|
            #[trigger] chord_run(key, mods@, held@, outcomes, tried, again, writes, error_of(r))
                && writes_lead(*old(writer), writes, *final(writer)),
{
    let ghost base = *writer;
    let freed = release_held(writer, held);
    let ghost idle = *writer;
    let ghost up = run_writes(all_steps(held@, false), freed@);
    let mut first: Option<String> = None;
    let (count, pressed) = press_mods(writer, mods, &mut first);
    let ghost ready = *writer;
    let ghost down = run_writes(all_steps(mods@.take(count as int), true), pressed@);
    proof {
        lemma_writes_lead_join(base, up, idle, down, ready);
    }
    if first.is_none() {
        let (again, tapped) = tap_key(writer, key, &mut first);
        let ghost done = *writer;
        let released = release_mods(writer, mods, count, &mut first);
        let r = match first {
            Some(e) => Err(e),
            None => Ok(()),
        };
        proof {
            assert(mods@.take(count as int) =~= mods@);
            assert forall|i: int| 0 <= i < pressed@.len() implies (#[trigger] pressed@[i]).error() is None by {
                assert(pressed@.last() == pressed@[pressed@.len() - 1]);
            }
            let tap = run_writes(tap_steps(key, again@), tapped@);
            let back = run_writes(all_steps(mods@.reverse(), false), released@);
            lemma_writes_lead_join(base, up + down, ready, tap, done);
            lemma_writes_lead_join(base, up + down + tap, done, back, *writer);
            lemma_tapped_chord(
                key,
                mods@,
                held@,
                again@,
                freed@,
                pressed@,
                tapped@,
                released@,
            );
        }
        return r;
    }
    let released = release_mods(writer, mods, count, &mut first);
    let r = match first {
        Some(e) => Err(e),
        None => Ok(()),
    };
    proof {
        let back = run_writes(all_steps(mods@.take(count as int).reverse(), false), released@);
        lemma_writes_lead_join(base, up + down, ready, back, *writer);
        lemma_broken_chord(key, mods@, held@, count as int, freed@, pressed@, released@);
    }
    r
}

/// The keys that a device shows as down after the writes, if it showed `before`
/// before them: a key event that it took moves its key.
pub open spec fn keys_down(before: Set<u16>, writes: Seq<EventWrite>) -> Set<u16>
    decreases writes.len(),
{
    if writes.len() == 0 {
        before
    } else {
        let rest = keys_down(before, writes.drop_last());
        let write = writes.last();
        if write.error is Some || write.event.type_ != EV_KEY {
            rest
        } else if write.event.value == 1 {
            rest.insert(write.event.code)
        } else if write.event.value == 0 {
            rest.remove(write.event.code)
        } else {
            rest
        }
    }
}

proof fn lemma_keys_down_join(before: Set<u16>, first: Seq<EventWrite>, second: Seq<EventWrite>)
    ensures
        keys_down(before, first + second) == keys_down(keys_down(before, first), second),
    decreases second.len(),
{
    if second.len() == 0 {
        assert(first + second =~= first);
    } else {
        lemma_keys_down_join(before, first, second.drop_last());
        assert((first + second).drop_last() =~= first + second.drop_last());
    }
}

/// What one more key step does to the keys that are down.
proof fn lemma_keys_down_step(before: Set<u16>, steps: Seq<KeyStep>, outcomes: Seq<KeyOutcome>)
    requires
        steps.len() == outcomes.len(),
        steps.len() > 0,
    ensures
        ({
            let rest = keys_down(before, run_writes(steps.drop_last(), outcomes.drop_last()));
            let step = steps.last();
            keys_down(before, run_writes(steps, outcomes)) == (if outcomes.last() is KeyRefused {
                rest
            } else if step.press {
                rest.insert(step.code)
            } else {
                rest.remove(step.code)
            })
        }),
{
    let earlier = run_writes(steps.drop_last(), outcomes.drop_last());
    let latest = step_writes(steps.last(), outcomes.last());
    lemma_keys_down_join(before, earlier, latest);
    reveal_with_fuel(keys_down, 3);
    if latest.len() == 2 {
        assert(latest.drop_last() =~= seq![latest[0]]);
        assert(latest.drop_last().drop_last() =~= Seq::empty());
    } else {
        assert(latest.drop_last() =~= Seq::empty());
    }
}

/// A key that no step presses is down afterwards only if it was before.
proof fn lemma_unpressed(
    before: Set<u16>,
    steps: Seq<KeyStep>,
    outcomes: Seq<KeyOutcome>,
    code: u16,
)
    requires
        steps.len() == outcomes.len(),
        forall|i: int| 0 <= i < steps.len() && (#[trigger] steps[i]).press ==> steps[i].code != code,
    ensures
        keys_down(before, run_writes(steps, outcomes)).contains(code) ==> before.contains(code),
    decreases steps.len(),
{
    if steps.len() > 0 {
        lemma_keys_down_step(before, steps, outcomes);
        assert forall|i: int|
            0 <= i < steps.drop_last().len() && (
            #[trigger] steps.drop_last()[i]).press implies steps.drop_last()[i].code != code by {
            assert(steps.drop_last()[i] == steps[i]);
        }
        lemma_unpressed(before, steps.drop_last(), outcomes.drop_last(), code);
        assert(steps.last() == steps[steps.len() - 1]);
    }
}

/// A key that a step released, and that no later step presses, is up afterwards.
proof fn lemma_released(
    before: Set<u16>,
    steps: Seq<KeyStep>,
    outcomes: Seq<KeyOutcome>,
    code: u16,
    at: int,
)
    requires
        steps.len() == outcomes.len(),
        0 <= at < steps.len(),
        steps[at] == (KeyStep { code, press: false }),
        !(outcomes[at] is KeyRefused),
        forall|i: int|
            at < i < steps.len() && (#[trigger] steps[i]).press ==> steps[i].code != code,
    ensures
        !keys_down(before, run_writes(steps, outcomes)).contains(code),
    decreases steps.len(),
{
    lemma_keys_down_step(before, steps, outcomes);
    if at < steps.len() - 1 {
        let earlier = steps.drop_last();
        assert(earlier[at] == steps[at]);
        assert(outcomes.drop_last()[at] == outcomes[at]);
        assert forall|i: int| at < i < earlier.len() && (#[trigger] earlier[i]).press implies earlier[i].code
            != code by {
            assert(earlier[i] == steps[i]);
        }
        lemma_released(before, earlier, outcomes.drop_last(), code, at);
        assert(steps.last() == steps[steps.len() - 1]);
    }
}

/// A chord leaves no key down on the device, whatever failed on the way, as long
/// as the device takes the key events that release the keys at the end: no key
/// that the chord pressed is down after it, and no key is that was not before.
pub proof fn law_chord_leaves_no_key_down(
    key: u16,
    mods: Seq<u16>,
    held: Seq<u16>,
    outcomes: Seq<KeyOutcome>,
    tried: int,
    again: bool,
    writes: Seq<EventWrite>,
    error: Option<Seq<char>>,
    before: Set<u16>,
)
    requires
        chord_run(key, mods, held, outcomes, tried, again, writes, error),
        forall|i: int|
            outcomes.len() - tried <= i < outcomes.len() ==> !(#[trigger] outcomes[i] is KeyRefused),
    ensures
        keys_down(before, writes).subset_of(before),
        forall|i: int| 0 <= i < tried ==> !keys_down(before, writes).contains(#[trigger] mods.push(key)[i]),
{
    let steps = chord_steps(key, mods, held, tried, again);
    let pressed = mods.push(key).take(tried);
    let total = steps.len() as int;
    assert(total == outcomes.len());
    assert forall|i: int| 0 <= i < tried implies !keys_down(before, writes).contains(
        #[trigger] mods.push(key)[i],
    ) by {
        let at = total - 1 - i;
        assert(steps[at] == all_steps(pressed.reverse(), false)[tried - 1 - i]);
        assert(pressed.reverse()[tried - 1 - i] == pressed[i]);
        assert forall|j: int| at < j < total implies !(#[trigger] steps[j]).press by {
            assert(steps[j] == all_steps(pressed.reverse(), false)[j - (total - tried)]);
        }
        lemma_released(before, steps, outcomes, mods.push(key)[i], at);
    }
    assert forall|code: u16| keys_down(before, writes).contains(code) implies before.contains(code) by {
        assert forall|j: int| 0 <= j < total && (#[trigger] steps[j]).press implies steps[j].code
            != code by {
            lemma_chord_presses(key, mods, held, tried, again, j);
            let i = j - held.len();
            assert(mods.push(key)[i] == steps[j].code);
        }
        lemma_unpressed(before, steps, outcomes, code);
    }
}

/// The steps of a chord that press a key are those behind the held keys, and
/// press the keys of the chord in order.
proof fn lemma_chord_presses(
    key: u16,
    mods: Seq<u16>,
    held: Seq<u16>,
    tried: int,
    again: bool,
    at: int,
)
    requires
        0 <= tried <= mods.len() + 1,
        0 <= at < chord_steps(key, mods, held, tried, again).len(),
        chord_steps(key, mods, held, tried, again)[at].press,
    ensures
        held.len() <= at < held.len() + tried,
        chord_steps(key, mods, held, tried, again)[at].code == mods.push(key)[at - held.len()],
{
}

/// A chord never presses a key that was only to be released: on the device, a
/// key of `held` that is not part of the chord only ever goes up.
pub proof fn law_held_keys_are_only_released(
    key: u16,
    mods: Seq<u16>,
    held: Seq<u16>,
    outcomes: Seq<KeyOutcome>,
    tried: int,
    again: bool,
    writes: Seq<EventWrite>,
    error: Option<Seq<char>>,
    code: u16,
)
    requires
        chord_run(key, mods, held, outcomes, tried, again, writes, error),
        held.contains(code),
        !mods.contains(code),
        code != key,
    ensures
        forall|i: int|
            0 <= i < writes.len() ==> (#[trigger] writes[i]).event != key_event(
                KeyStep { code, press: true },
            ),
{
    let steps = chord_steps(key, mods, held, tried, again);
    assert forall|j: int| 0 <= j < steps.len() && (#[trigger] steps[j]).press implies steps[j].code
        != code by {
        lemma_chord_presses(key, mods, held, tried, again, j);
        let i = j - held.len();
        if i < mods.len() {
            assert(mods[i] == steps[j].code);
        }
    }
    lemma_no_press(steps, outcomes, code);
}

proof fn lemma_no_press(steps: Seq<KeyStep>, outcomes: Seq<KeyOutcome>, code: u16)
    requires
        steps.len() == outcomes.len(),
        forall|i: int| 0 <= i < steps.len() && (#[trigger] steps[i]).press ==> steps[i].code != code,
    ensures
        forall|i: int|
            0 <= i < run_writes(steps, outcomes).len() ==> (
            #[trigger] run_writes(steps, outcomes)[i]).event != key_event(
                KeyStep { code, press: true },
            ),
    decreases steps.len(),
{
    if steps.len() > 0 {
        let earlier = steps.drop_last();
        assert forall|i: int| 0 <= i < earlier.len() && (#[trigger] earlier[i]).press implies earlier[i].code
            != code by {
            assert(earlier[i] == steps[i]);
        }
        lemma_no_press(earlier, outcomes.drop_last(), code);
        assert(steps.last() == steps[steps.len() - 1]);
        let head = run_writes(earlier, outcomes.drop_last());
        let tail = step_writes(steps.last(), outcomes.last());
        let all = run_writes(steps, outcomes);
        assert forall|i: int| 0 <= i < all.len() implies (#[trigger] all[i]).event != key_event(
            KeyStep { code, press: true },
        ) by {
            if i < head.len() {
                assert(all[i] == head[i]);
            } else {
                assert(all[i] == tail[i - head.len()]);
            }
        }
    }
}

/// On a device that takes every event a chord succeeds, and is one unbroken run:
/// the held keys go up, the modifiers go down in order, the key goes down and
/// up, and the modifiers come up in reverse.
pub proof fn law_undisturbed_chord(
    key: u16,
    mods: Seq<u16>,
    held: Seq<u16>,
    outcomes: Seq<KeyOutcome>,
    tried: int,
    again: bool,
    writes: Seq<EventWrite>,
    error: Option<Seq<char>>,
)
    requires
        chord_run(key, mods, held, outcomes, tried, again, writes, error),
        forall|i: int| 0 <= i < outcomes.len() ==> (#[trigger] outcomes[i]).error() is None,
    ensures
        error is None,
        writes == run_writes(
            all_steps(held, false) + all_steps(mods, true) + seq![
                KeyStep { code: key, press: true },
                KeyStep { code: key, press: false },
            ] + all_steps(mods.reverse(), false),
            outcomes,
        ),
{
    assert(tried == mods.len() + 1);
    assert(!again);
    assert(mods.push(key).take(tried) =~= mods.push(key));
    assert(chord_steps(key, mods, held, tried, again) =~= all_steps(held, false) + all_steps(
        mods,
        true,
    ) + seq![KeyStep { code: key, press: true }, KeyStep { code: key, press: false }] + all_steps(
        mods.reverse(),
        false,
    ));
    let reported = outcomes.skip(held.len() as int);
    assert forall|i: int| 0 <= i < reported.len() implies (#[trigger] reported[i]).error() is None by {
        assert(reported[i] == outcomes[i + held.len()]);
    }
    lemma_first_error_none(reported);
}

proof fn lemma_first_error_none(outcomes: Seq<KeyOutcome>)
    ensures
        first_error(outcomes) is None <==> forall|i: int|
            0 <= i < outcomes.len() ==> (#[trigger] outcomes[i]).error() is None,
    decreases outcomes.len(),
{
    if outcomes.len() > 0 {
        let earlier = outcomes.drop_last();
        lemma_first_error_none(earlier);
        assert(outcomes.last() == outcomes[outcomes.len() - 1]);
        if first_error(outcomes) is None {
            assert forall|i: int| 0 <= i < outcomes.len() implies (#[trigger] outcomes[i]).error() is None by {
                if i < outcomes.len() - 1 {
                    assert(earlier[i] == outcomes[i]);
                }
            }
        } else if forall|i: int|
            0 <= i < outcomes.len() ==> (#[trigger] outcomes[i]).error() is None {
            assert forall|i: int| 0 <= i < earlier.len() implies (#[trigger] earlier[i]).error() is None by {
                assert(earlier[i] == outcomes[i]);
            }
        }
    }
}

/// A chord succeeds exactly when every step behind the release of the held keys
/// went through.
pub proof fn law_chord_success(
    key: u16,
    mods: Seq<u16>,
    held: Seq<u16>,
    outcomes: Seq<KeyOutcome>,
    tried: int,
    again: bool,
    writes: Seq<EventWrite>,
    error: Option<Seq<char>>,
)
    requires
        chord_run(key, mods, held, outcomes, tried, again, writes, error),
    ensures
        error is None <==> forall|i: int|
            held.len() <= i < outcomes.len() ==> (#[trigger] outcomes[i]).error() is None,
{
    let reported = outcomes.skip(held.len() as int);
    lemma_first_error_none(reported);
    if error is None {
        assert forall|i: int| held.len() <= i < outcomes.len() implies (
        #[trigger] outcomes[i]).error() is None by {
            assert(reported[i - held.len()] == outcomes[i]);
        }
    } else if forall|i: int|
        held.len() <= i < outcomes.len() ==> (#[trigger] outcomes[i]).error() is None {
        assert forall|i: int| 0 <= i < reported.len() implies (#[trigger] reported[i]).error() is None by {
            assert(reported[i] == outcomes[i + held.len()]);
        }
    }
}

/// The events of one key step: a key event with the value one for a press and zero
/// for a release, then an empty report. A key event that is refused is the last; the
/// refusal stands with the event that met it.
pub proof fn law_step_events(code: u16, press: bool, e: Seq<char>)
    ensures
        ({
            let step = KeyStep { code, press };
            let key = InputEvent {
                type_: 1,
                code,
                value: if press {
                    1
                } else {
                    0
                },
            };
            let report = InputEvent { type_: 0, code: 0, value: 0 };
            &&& step_writes(step, KeyOutcome::Written) == seq![
                EventWrite { event: key, error: None },
                EventWrite { event: report, error: None },
            ]
            &&& step_writes(step, KeyOutcome::KeyRefused(e)) == seq![
                EventWrite { event: key, error: Some(e) },
            ]
            &&& step_writes(step, KeyOutcome::ReportRefused(e)) == seq![
                EventWrite { event: key, error: None },
                EventWrite { event: report, error: Some(e) },
            ]
            &&& KeyOutcome::Written.error() is None
            &&& KeyOutcome::KeyRefused(e).error() == Some(e)
            &&& KeyOutcome::ReportRefused(e).error() == Some(e)
        }),
{
}

/// A run of steps writes the events of each step, one step after the other.
pub proof fn law_runs_in_order(
    steps: Seq<KeyStep>,
    outcomes: Seq<KeyOutcome>,
    step: KeyStep,
    outcome: KeyOutcome,
)
    requires
        steps.len() == outcomes.len(),
    ensures
        run_writes(Seq::empty(), Seq::empty()) == Seq::<EventWrite>::empty(),
        run_writes(steps.push(step), outcomes.push(outcome)) == run_writes(steps, outcomes)
            + step_writes(step, outcome),
{
    lemma_run_writes_push(steps, outcomes, step, outcome);
}

/// Writes lead from one state of a device to another one by one: none lead nowhere,
/// and the last leads from where the others led.
pub proof fn law_writes_lead<W: EventWriter>(
    pre: W,
    writes: Seq<EventWrite>,
    write: EventWrite,
    post: W,
)
    ensures
        writes_lead(pre, Seq::empty(), post) <==> pre == post,
        writes_lead(pre, writes.push(write), post) <==> exists|mid: W|
            writes_lead(pre, writes, mid) && #[trigger] W::takes(&mid, write, &post),
{
    let all = writes.push(write);
    assert(all.drop_last() =~= writes);
    assert(all.last() == write);
}

/// The steps of a chord, place by place: the held keys go up, the modifiers and the
/// key that were tried go down, a key whose release failed goes up once more, and
/// what was tried comes up again from the last to the first.
pub proof fn law_chord_steps(
    key: u16,
    mods: Seq<u16>,
    held: Seq<u16>,
    outcomes: Seq<KeyOutcome>,
    tried: int,
    again: bool,
    writes: Seq<EventWrite>,
    error: Option<Seq<char>>,
)
    requires
        chord_run(key, mods, held, outcomes, tried, again, writes, error),
    ensures
        exists|steps: Seq<KeyStep>|
            {
                let h = held.len() as int;
                let extra = if again {
                    1int
                } else {
                    0
                };
                &&& writes == #[trigger] run_writes(steps, outcomes)
                &&& 1 <= tried <= mods.len() + 1
                &&& steps.len() == h + 2 * tried + extra
                &&& outcomes.len() == steps.len()
                &&& forall|i: int|
                    0 <= i < h ==> #[trigger] steps[i] == (KeyStep { code: held[i], press: false })
                &&& forall|i: int|
                    h <= i < h + tried ==> #[trigger] steps[i] == (KeyStep {
                        code: if i - h < mods.len() {
                            mods[i - h]
                        } else {
                            key
                        },
                        press: true,
                    })
                &&& again ==> steps[h + tried] == (KeyStep { code: key, press: false })
                &&& forall|i: int|
                    h + tried + extra <= i < h + 2 * tried + extra ==> #[trigger] steps[i] == (
                    KeyStep {
                        code: if h + 2 * tried + extra - 1 - i < mods.len() {
                            mods[h + 2 * tried + extra - 1 - i]
                        } else {
                            key
                        },
                        press: false,
                    })
            },
{
    let steps = chord_steps(key, mods, held, tried, again);
    let h = held.len() as int;
    let extra = if again {
        1int
    } else {
        0
    };
    let pressed = mods.push(key).take(tried);
    assert(writes == run_writes(steps, outcomes));
    assert forall|i: int| h + tried + extra <= i < h + 2 * tried + extra implies #[trigger] steps[i]
        == (KeyStep {
        code: if h + 2 * tried + extra - 1 - i < mods.len() {
            mods[h + 2 * tried + extra - 1 - i]
        } else {
            key
        },
        press: false,
    }) by {
        let k = i - (h + tried + extra);
        assert(steps[i] == all_steps(pressed.reverse(), false)[k]);
        assert(pressed.reverse()[k] == pressed[tried - 1 - k]);
    }
}

/// How far a chord goes: every modifier and the key are tried unless a press fails,
/// and the first press that fails is the last that is tried. The key is released a
/// second time exactly when it went down and its release failed.
pub proof fn law_chord_progress(
    key: u16,
    mods: Seq<u16>,
    held: Seq<u16>,
    outcomes: Seq<KeyOutcome>,
    tried: int,
    again: bool,
    writes: Seq<EventWrite>,
    error: Option<Seq<char>>,
)
    requires
        chord_run(key, mods, held, outcomes, tried, again, writes, error),
    ensures
        ({
            let h = held.len() as int;
            &&& forall|i: int|
                h <= i < h + tried - 1 ==> (#[trigger] outcomes[i]).error() is None
            &&& tried <= mods.len() ==> outcomes[h + tried - 1].error() is Some
            &&& again <==> tried == mods.len() + 1 && outcomes[h + tried - 1].error() is None
                && outcomes[h + tried].error() is Some
        }),
{
}

/// The error of a chord is that of the first step behind the held keys that failed;
/// there is none exactly when none did.
pub proof fn law_first_error_is_reported(
    key: u16,
    mods: Seq<u16>,
    held: Seq<u16>,
    outcomes: Seq<KeyOutcome>,
    tried: int,
    again: bool,
    writes: Seq<EventWrite>,
    error: Option<Seq<char>>,
)
    requires
        chord_run(key, mods, held, outcomes, tried, again, writes, error),
    ensures
        error is Some <==> exists|i: int|
            held.len() <= i < outcomes.len() && (#[trigger] outcomes[i]).error() is Some,
        forall|i: int|
            held.len() <= i < outcomes.len() && (#[trigger] outcomes[i]).error() is Some && (forall|
                j: int,
            |
                held.len() <= j < i ==> (#[trigger] outcomes[j]).error() is None) ==> error
                == outcomes[i].error(),
{
    law_chord_success(key, mods, held, outcomes, tried, again, writes, error);
    let reported = outcomes.skip(held.len() as int);
    assert forall|i: int|
        held.len() <= i < outcomes.len() && (#[trigger] outcomes[i]).error() is Some && (forall|
            j: int,
        |
            held.len() <= j < i ==> (#[trigger] outcomes[j]).error() is None) implies error
        == outcomes[i].error() by {
        let k = i - held.len();
        let before = reported.take(k);
        assert forall|j: int| 0 <= j < before.len() implies (#[trigger] before[j]).error() is None by {
            assert(before[j] == outcomes[j + held.len()]);
        }
        lemma_first_error_none(before);
        lemma_first_error_push(before, reported[k]);
        assert(before.push(reported[k]) + reported.skip(k + 1) =~= reported);
        lemma_first_error_join(before.push(reported[k]), reported.skip(k + 1));
    }
}

/// The error of a result is its text, and there is none on success.
pub proof fn law_error_texts(e: String)
    ensures
        error_of::<()>(Err(e)) == Some(e@),
        error_of::<()>(Ok(())) is None,
{
}

} // verus!
